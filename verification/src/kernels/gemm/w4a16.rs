//! AutoAWQ INT4 weight-only (W4A16) contracts.
//!
//! Weights stay in the on-disk AutoAWQ `gemm` packing, optionally with several
//! experts stored back to back in one allocation. Two execution modes are
//! offered:
//!
//! * [`dequant_bf16_into`] unpacks weights into a caller-owned BF16 `[K, N]`
//!   buffer so any dense GEMM can consume them.
//! * [`gemv_partial_into`] + [`partial_sum_into`] / [`partial_silu_mul_into`]
//!   run a split-K, multi-expert GEMV directly on the packed weights for
//!   `M = 1` decode; expert selection is read on device.

use super::super::contracts::{
    address_problem, buffer_problem, first_of, is_positive, positive_bits, require_address,
    require_buffer, unless,
};
use super::tiles::{all_tiles, are_offsets, check_offsets, cut, Tile};
use crate::context::CudaContext;
use crate::error::Error;
use crate::text::{chars_of, same};
use crate::types::{CudaBuffer, CudaDeviceAddress};
use vstd::prelude::*;

verus! {

/// Group size used by every checkpoint this contract currently accepts.
pub const AWQ_GROUP_SIZE: usize = 128;

/// The largest number the native interface takes.
pub const NATIVE_MAX: usize = 0x7fff_ffff;

/// Rows of one tile of the grouped product.
pub const GROUPED_STEP: usize = 64;

/// Validated host-routed row schedule, shared by gate/up and down projections.
#[derive(Clone, Copy, Debug, PartialEq, Eq, Structural)]
pub struct GroupedRows {
    pub tiles: CudaBuffer,
    pub count: usize,
    pub rows: usize,
    pub experts: usize,
}

pub const OFFSETS: &'static str = "grouped GEMM: invalid expert offsets";

pub const SCHEDULE: &'static str = "grouped GEMM: empty or oversized schedule";

pub const GROUPED_SCHEDULE: &'static str = "grouped GEMM schedule";

/// The numbers of a schedule: expert, first row and end of each tile.
pub open spec fn flattened(tiles: Seq<Tile>) -> Seq<i32>
    decreases tiles.len(),
{
    if tiles.len() == 0 {
        Seq::empty()
    } else {
        flattened(tiles.drop_last()) + seq![
            tiles.last().expert as i32,
            tiles.last().row as i32,
            tiles.last().end as i32,
        ]
    }
}

pub proof fn lemma_flattened_len(tiles: Seq<Tile>)
    ensures
        flattened(tiles).len() == 3 * tiles.len(),
    decreases tiles.len(),
{
    if tiles.len() > 0 {
        lemma_flattened_len(tiles.drop_last());
    }
}

pub open spec fn offsets_hold(offsets: Seq<usize>) -> bool {
    are_offsets(offsets) && forall|i: int|
        0 <= i < offsets.len() ==> #[trigger] offsets[i] <= NATIVE_MAX
}

pub open spec fn grouped_problem(device: usize, offsets: Seq<usize>, tiles: CudaBuffer) -> Option<
    Error,
> {
    let count = all_tiles(offsets, GROUPED_STEP as int).len();
    if !offsets_hold(offsets) {
        Some(Error::Other(OFFSETS))
    } else if count == 0 || count > NATIVE_MAX || 12 * count > usize::MAX {
        Some(Error::Other(SCHEDULE))
    } else {
        buffer_problem(device, GROUPED_SCHEDULE, "tiles", tiles, 12 * count as int)
    }
}

impl GroupedRows {
    /// A schedule for expert-sorted rows, and the numbers to copy into
    /// `tiles`: for every 64 rows of an expert, the expert, the first row and
    /// the end of the expert's rows.
    pub fn new(ctx: &CudaContext, offsets: &[usize], tiles: &CudaBuffer) -> (result: Result<
        (GroupedRows, Vec<i32>),
        Error,
    >)
        ensures
            match grouped_problem(ctx.device_id, offsets@, *tiles) {
                Some(error) => result == Err::<(GroupedRows, Vec<i32>), Error>(error),
                None => result matches Ok((schedule, values)) && {
                    &&& values@ == flattened(all_tiles(offsets@, GROUPED_STEP as int))
                    &&& schedule == (GroupedRows {
                        tiles: *tiles,
                        count: all_tiles(offsets@, GROUPED_STEP as int).len() as usize,
                        rows: offsets@.last(),
                        experts: (offsets@.len() - 1) as usize,
                    })
                },
            },
    {
        if !check_offsets(offsets) {
            return Err(Error::Other(OFFSETS));
        }
        let mut i: usize = 0;
        while i < offsets.len()
            invariant
                i <= offsets@.len(),
                are_offsets(offsets@),
                forall|j: int| 0 <= j < i ==> #[trigger] offsets@[j] <= NATIVE_MAX,
            decreases offsets.len() - i,
        {
            if offsets[i] > NATIVE_MAX {
                assert(offsets@[i as int] > NATIVE_MAX);
                return Err(Error::Other(OFFSETS));
            }
            i = i + 1;
        }
        let cuts = cut(offsets, GROUPED_STEP);
        let mut values: Vec<i32> = Vec::new();
        let mut i: usize = 0;
        assert(cuts@.take(0) =~= Seq::<Tile>::empty());
        while i < cuts.len()
            invariant
                i <= cuts.len(),
                values@ == flattened(cuts@.take(i as int)),
            decreases cuts.len() - i,
        {
            assert(cuts@.take(i + 1).drop_last() =~= cuts@.take(i as int));
            values.push(cuts[i].expert as i32);
            values.push(cuts[i].row as i32);
            values.push(cuts[i].end as i32);
            i = i + 1;
            assert(values@ =~= flattened(cuts@.take(i as int)));
        }
        assert(cuts@.take(i as int) =~= cuts@);
        let count: usize = cuts.len();
        if count == 0 || count > NATIVE_MAX || count > usize::MAX / 12 {
            return Err(Error::Other(SCHEDULE));
        }
        require_buffer(ctx, GROUPED_SCHEDULE, "tiles", tiles, count * 12)?;
        Ok(
            (
                GroupedRows {
                    tiles: *tiles,
                    count,
                    rows: offsets[offsets.len() - 1],
                    experts: offsets.len() - 1,
                },
                values,
            ),
        )
    }
}

/// One or more AutoAWQ linears stored expert-major.
///
/// For `experts == 1` the strides are ignored. Element strides are in units of
/// `i32` words for `qweight`/`qzeros` and half-precision values for `scales`.
#[derive(Clone, Copy, Debug, PartialEq, Eq, Structural)]
pub struct AwqWeightView {
    pub qweight: CudaBuffer,
    pub qzeros: CudaBuffer,
    pub scales: CudaBuffer,
    /// Input features `K`.
    pub in_dim: usize,
    /// Output features `N` (multiple of 8).
    pub out_dim: usize,
    pub group_size: usize,
    pub experts: usize,
    pub stride_q: usize,
    pub stride_z: usize,
    pub stride_s: usize,
}

pub const GEOMETRY: &'static str = "invalid AWQ geometry";

pub const STRIDES: &'static str = "AWQ expert strides are smaller than one expert";

impl AwqWeightView {
    /// Whether the extents are those of a packed linear.
    pub open spec fn geometry(self) -> bool {
        self.in_dim != 0 && self.out_dim != 0 && self.out_dim % 8 == 0 && self.group_size != 0
            && self.in_dim % self.group_size == 0 && self.experts != 0
    }

    pub open spec fn words(self) -> int {
        self.in_dim * (self.out_dim / 8)
    }

    pub open spec fn zero_words(self) -> int {
        (self.in_dim / self.group_size) * (self.out_dim / 8)
    }

    pub open spec fn scale_elements(self) -> int {
        (self.in_dim / self.group_size) * self.out_dim
    }

    /// The bytes up to the end of the last expert.
    pub open spec fn qweight_bytes(self) -> int {
        ((self.experts - 1) * self.stride_q + self.words()) * 4
    }

    pub open spec fn qzeros_bytes(self) -> int {
        ((self.experts - 1) * self.stride_z + self.zero_words()) * 4
    }

    pub open spec fn scales_bytes(self) -> int {
        ((self.experts - 1) * self.stride_s + self.scale_elements()) * 2
    }

    /// Whether the sizes of a packed linear are machine words.
    pub open spec fn fits(self) -> bool {
        self.geometry() ==> self.words() <= usize::MAX && self.zero_words() <= usize::MAX
            && self.scale_elements() <= usize::MAX && self.qweight_bytes() <= usize::MAX
            && self.qzeros_bytes() <= usize::MAX && self.scales_bytes() <= usize::MAX
    }

    /// What is wrong with a view.
    pub open spec fn problem(self, device: usize, operation: &'static str) -> Option<Error> {
        if !self.geometry() {
            Some(Error::Operation { operation, problem: GEOMETRY })
        } else if self.experts > 1 && (self.stride_q < self.words() || self.stride_z
            < self.zero_words() || self.stride_s < self.scale_elements()) {
            Some(Error::Operation { operation, problem: STRIDES })
        } else {
            first_of(
                buffer_problem(device, operation, "qweight", self.qweight, self.qweight_bytes()),
                first_of(
                    buffer_problem(device, operation, "qzeros", self.qzeros, self.qzeros_bytes()),
                    buffer_problem(device, operation, "scales", self.scales, self.scales_bytes()),
                ),
            )
        }
    }

    /// Single linear (no expert dimension).
    pub fn single(
        qweight: CudaBuffer,
        qzeros: CudaBuffer,
        scales: CudaBuffer,
        in_dim: usize,
        out_dim: usize,
        group_size: usize,
    ) -> (view: Self)
        ensures
            view == (AwqWeightView {
                qweight,
                qzeros,
                scales,
                in_dim,
                out_dim,
                group_size,
                experts: 1,
                stride_q: 0,
                stride_z: 0,
                stride_s: 0,
            }),
    {
        AwqWeightView {
            qweight,
            qzeros,
            scales,
            in_dim,
            out_dim,
            group_size,
            experts: 1,
            stride_q: 0,
            stride_z: 0,
            stride_s: 0,
        }
    }

    pub fn packed_cols(&self) -> (cols: usize)
        ensures
            cols == self.out_dim / 8,
    {
        self.out_dim / 8
    }

    pub fn groups(&self) -> (groups: usize)
        requires
            self.group_size != 0,
        ensures
            groups == self.in_dim / self.group_size,
    {
        self.in_dim / self.group_size
    }

    /// Word count of one expert's `qweight`.
    pub fn qweight_words(&self) -> (words: usize)
        requires
            self.words() <= usize::MAX,
        ensures
            words == self.words(),
    {
        self.in_dim * self.packed_cols()
    }

    /// Word count of one expert's `qzeros`.
    pub fn qzeros_words(&self) -> (words: usize)
        requires
            self.group_size != 0,
            self.zero_words() <= usize::MAX,
        ensures
            words == self.zero_words(),
    {
        self.groups() * self.packed_cols()
    }

    /// Element count of one expert's `scales`.
    pub fn scales_elements(&self) -> (elements: usize)
        requires
            self.group_size != 0,
            self.scale_elements() <= usize::MAX,
        ensures
            elements == self.scale_elements(),
    {
        self.groups() * self.out_dim
    }

    pub fn validate(&self, ctx: &CudaContext, operation: &'static str) -> (result: Result<(), Error>)
        requires
            self.fits(),
        ensures
            result == unless(self.problem(ctx.device_id, operation), ()),
    {
        if self.in_dim == 0 || self.out_dim == 0 || self.out_dim % 8 != 0 || self.group_size == 0
            || self.in_dim % self.group_size != 0 || self.experts == 0 {
            return Err(Error::Operation { operation, problem: GEOMETRY });
        }
        let words: usize = self.qweight_words();
        let zeros: usize = self.qzeros_words();
        let scales: usize = self.scales_elements();
        if self.experts > 1 && (self.stride_q < words || self.stride_z < zeros || self.stride_s
            < scales) {
            return Err(Error::Operation { operation, problem: STRIDES });
        }
        let last: usize = self.experts - 1;
        proof {
            assert(last * self.stride_q >= 0) by (nonlinear_arith)
                requires
                    last >= 0,
                    self.stride_q >= 0,
            ;
            assert(last * self.stride_z >= 0) by (nonlinear_arith)
                requires
                    last >= 0,
                    self.stride_z >= 0,
            ;
            assert(last * self.stride_s >= 0) by (nonlinear_arith)
                requires
                    last >= 0,
                    self.stride_s >= 0,
            ;
            assert(self.words() >= 0 && self.zero_words() >= 0 && self.scale_elements() >= 0);
        }
        require_buffer(
            ctx,
            operation,
            "qweight",
            &self.qweight,
            (last * self.stride_q + words) * 4,
        )?;
        require_buffer(
            ctx,
            operation,
            "qzeros",
            &self.qzeros,
            (last * self.stride_z + zeros) * 4,
        )?;
        require_buffer(
            ctx,
            operation,
            "scales",
            &self.scales,
            (last * self.stride_s + scales) * 2,
        )
    }
}

/// `apxinf_w4a16_grouped_bf16`.
#[derive(Clone, Copy, Debug, PartialEq, Eq, Structural)]
pub struct GroupedLaunch {
    pub x: usize,
    pub qweight: usize,
    pub qzeros: usize,
    pub scales: usize,
    pub tiles: usize,
    pub output: usize,
    pub count: i32,
    pub in_dim: i32,
    pub out_dim: i32,
    pub group_size: i32,
    pub stride_q: i64,
    pub stride_z: i64,
    pub stride_s: i64,
}

pub const GROUPED: &'static str = "grouped W4A16 GEMM";

pub const GROUPED_SM: &'static str = "grouped W4A16 GEMM requires SM80 or newer";

pub const GROUPED_DIMS: &'static str = "grouped GEMM: unsupported dimensions";

pub const GROUPED_OVERFLOW: &'static str = "grouped GEMM: byte count overflow";

pub open spec fn grouped_gemm_problem(
    ctx: CudaContext,
    x: CudaBuffer,
    weight: AwqWeightView,
    schedule: GroupedRows,
    output: CudaBuffer,
) -> Option<Error> {
    let device = ctx.device_id;
    first_of(
        weight.problem(device, GROUPED),
        if ctx.caps.compute_major < 8 {
            Some(Error::Other(GROUPED_SM))
        } else if weight.group_size != 128 || weight.experts != schedule.experts || weight.in_dim
            > NATIVE_MAX || weight.out_dim > 65535 * 128 {
            Some(Error::Other(GROUPED_DIMS))
        } else if schedule.rows * weight.in_dim * 2 > usize::MAX || schedule.rows * weight.out_dim
            * 2 > usize::MAX {
            Some(Error::Other(GROUPED_OVERFLOW))
        } else {
            first_of(
                buffer_problem(device, GROUPED, "x", x, schedule.rows * weight.in_dim * 2),
                first_of(
                    buffer_problem(
                        device,
                        GROUPED,
                        "output",
                        output,
                        schedule.rows * weight.out_dim * 2,
                    ),
                    buffer_problem(device, GROUPED, "tiles", schedule.tiles, schedule.count * 12),
                ),
            )
        },
    )
}

/// Grouped BF16 activation × AutoAWQ INT4 weights, without global dequant
/// scratch.
pub fn grouped_bf16_into(
    ctx: &CudaContext,
    x: &CudaBuffer,
    weight: AwqWeightView,
    schedule: &GroupedRows,
    output: &CudaBuffer,
) -> (result: Result<GroupedLaunch, Error>)
    requires
        weight.fits(),
        schedule.count * 12 <= usize::MAX,
    ensures
        result == unless(
            grouped_gemm_problem(*ctx, *x, weight, *schedule, *output),
            GroupedLaunch {
                x: x.address,
                qweight: weight.qweight.address,
                qzeros: weight.qzeros.address,
                scales: weight.scales.address,
                tiles: schedule.tiles.address,
                output: output.address,
                count: schedule.count as i32,
                in_dim: weight.in_dim as i32,
                out_dim: weight.out_dim as i32,
                group_size: weight.group_size as i32,
                stride_q: weight.stride_q as i64,
                stride_z: weight.stride_z as i64,
                stride_s: weight.stride_s as i64,
            },
        ),
{
    weight.validate(ctx, GROUPED)?;
    if ctx.caps.compute_major < 8 {
        return Err(Error::Other(GROUPED_SM));
    }
    if weight.group_size != 128 || weight.experts != schedule.experts || weight.in_dim > NATIVE_MAX
        || weight.out_dim > 65535 * 128 {
        return Err(Error::Other(GROUPED_DIMS));
    }
    let x_bytes: usize = super::super::contracts::checked_matrix_bytes(
        schedule.rows,
        weight.in_dim,
        2,
        GROUPED_OVERFLOW,
    )?;
    let output_bytes: usize = super::super::contracts::checked_matrix_bytes(
        schedule.rows,
        weight.out_dim,
        2,
        GROUPED_OVERFLOW,
    )?;
    require_buffer(ctx, GROUPED, "x", x, x_bytes)?;
    require_buffer(ctx, GROUPED, "output", output, output_bytes)?;
    require_buffer(ctx, GROUPED, "tiles", &schedule.tiles, schedule.count * 12)?;
    Ok(
        GroupedLaunch {
            x: x.address,
            qweight: weight.qweight.address,
            qzeros: weight.qzeros.address,
            scales: weight.scales.address,
            tiles: schedule.tiles.address,
            output: output.address,
            count: schedule.count as i32,
            in_dim: weight.in_dim as i32,
            out_dim: weight.out_dim as i32,
            group_size: weight.group_size as i32,
            stride_q: weight.stride_q as i64,
            stride_z: weight.stride_z as i64,
            stride_s: weight.stride_s as i64,
        },
    )
}

/// `apxinf_awq_dequant_bf16`. The packed operands start at the given byte
/// offsets of their buffers.
#[derive(Clone, Copy, Debug, PartialEq, Eq, Structural)]
pub struct DequantLaunch {
    pub qweight: CudaBuffer,
    pub qweight_offset: usize,
    pub qzeros: CudaBuffer,
    pub qzeros_offset: usize,
    pub scales: CudaBuffer,
    pub scales_offset: usize,
    pub output: usize,
    pub in_dim: i32,
    pub packed_cols: i32,
    pub group_size: i32,
    pub count: i32,
    pub stride_q: i64,
    pub stride_z: i64,
    pub stride_s: i64,
    pub output_stride: i64,
}

pub const DEQUANT: &'static str = "AWQ dequant";

pub const DEQUANT_RANGE: &'static str = "AWQ dequant: expert range exceeds the experts";

pub open spec fn dequant_problem(
    device: usize,
    weight: AwqWeightView,
    first: usize,
    count: usize,
    output: CudaBuffer,
) -> Option<Error> {
    first_of(
        weight.problem(device, DEQUANT),
        if count == 0 || first + count > weight.experts {
            Some(Error::Other(DEQUANT_RANGE))
        } else {
            buffer_problem(
                device,
                DEQUANT,
                "output",
                output,
                count * (weight.in_dim * weight.out_dim) * 2,
            )
        },
    )
}

/// Dequantize experts `[0, experts)` into `output` as BF16 `[experts, K, N]`
/// (expert stride `K * N` elements).
pub fn dequant_bf16_into(ctx: &CudaContext, weight: AwqWeightView, output: &CudaBuffer) -> (result:
    Result<DequantLaunch, Error>)
    requires
        weight.fits(),
        weight.experts * (weight.in_dim * weight.out_dim) * 2 <= usize::MAX,
        weight.in_dim * weight.out_dim <= usize::MAX,
    ensures
        result == unless(
            dequant_problem(ctx.device_id, weight, 0, weight.experts, *output),
            dequant_launch(weight, 0, weight.experts, *output),
        ),
{
    dequant_range_bf16_into(ctx, weight, 0, weight.experts, output)
}

pub open spec fn dequant_launch(
    weight: AwqWeightView,
    first: usize,
    count: usize,
    output: CudaBuffer,
) -> DequantLaunch {
    DequantLaunch {
        qweight: weight.qweight,
        qweight_offset: (first * weight.stride_q * 4) as usize,
        qzeros: weight.qzeros,
        qzeros_offset: (first * weight.stride_z * 4) as usize,
        scales: weight.scales,
        scales_offset: (first * weight.stride_s * 2) as usize,
        output: output.address,
        in_dim: weight.in_dim as i32,
        packed_cols: (weight.out_dim / 8) as i32,
        group_size: weight.group_size as i32,
        count: count as i32,
        stride_q: weight.stride_q as i64,
        stride_z: weight.stride_z as i64,
        stride_s: weight.stride_s as i64,
        output_stride: (weight.in_dim * weight.out_dim) as i64,
    }
}

/// The offset of an expert lies inside the bytes that a valid view has.
pub proof fn lemma_expert_offset(first: int, last: int, stride: int, words: int, width: int)
    requires
        0 <= first <= last,
        stride >= 0,
        words >= 0,
        width > 0,
    ensures
        0 <= first * stride,
        0 <= first * stride * width <= (last * stride + words) * width,
{
    assert(0 <= first * stride <= last * stride) by (nonlinear_arith)
        requires
            0 <= first <= last,
            stride >= 0,
    ;
    let a = first * stride;
    let b = last * stride + words;
    assert(0 <= a * width <= b * width) by (nonlinear_arith)
        requires
            0 <= a <= b,
            width > 0,
    ;
}

/// Dequantize experts `[first, first + count)` into `output` as BF16
/// `[count, K, N]`.
pub fn dequant_range_bf16_into(
    ctx: &CudaContext,
    weight: AwqWeightView,
    first: usize,
    count: usize,
    output: &CudaBuffer,
) -> (result: Result<DequantLaunch, Error>)
    requires
        weight.fits(),
        first + count <= usize::MAX,
        weight.in_dim * weight.out_dim <= usize::MAX,
        count * (weight.in_dim * weight.out_dim) * 2 <= usize::MAX,
    ensures
        result == unless(
            dequant_problem(ctx.device_id, weight, first, count, *output),
            dequant_launch(weight, first, count, *output),
        ),
        result matches Ok(launch) ==> {
            &&& launch.qweight_offset <= launch.qweight.len
            &&& launch.qzeros_offset <= launch.qzeros.len
            &&& launch.scales_offset <= launch.scales.len
        },
{
    weight.validate(ctx, DEQUANT)?;
    if count == 0 || first + count > weight.experts {
        return Err(Error::Other(DEQUANT_RANGE));
    }
    let per_expert: usize = weight.in_dim * weight.out_dim;
    proof {
        assert(count * per_expert >= 0) by (nonlinear_arith)
            requires
                count >= 0,
                per_expert >= 0,
        ;
        let last = weight.experts - 1;
        assert(weight.words() >= 0 && weight.zero_words() >= 0 && weight.scale_elements() >= 0) by {
            assert(weight.words() >= 0) by (nonlinear_arith)
                requires
                    weight.words() == weight.in_dim * (weight.out_dim / 8),
                    weight.in_dim >= 0,
                    weight.out_dim / 8 >= 0,
            ;
            let g = weight.in_dim / weight.group_size;
            let c = weight.out_dim / 8;
            assert(g * c >= 0) by (nonlinear_arith)
                requires
                    g >= 0,
                    c >= 0,
            ;
            assert(g * weight.out_dim >= 0) by (nonlinear_arith)
                requires
                    g >= 0,
                    weight.out_dim >= 0,
            ;
        }
        lemma_expert_offset(first as int, last, weight.stride_q as int, weight.words(), 4);
        lemma_expert_offset(first as int, last, weight.stride_z as int, weight.zero_words(), 4);
        lemma_expert_offset(
            first as int,
            last,
            weight.stride_s as int,
            weight.scale_elements(),
            2,
        );
    }
    require_buffer(ctx, DEQUANT, "output", output, count * per_expert * 2)?;
    Ok(
        DequantLaunch {
            qweight: weight.qweight,
            qweight_offset: first * weight.stride_q * 4,
            qzeros: weight.qzeros,
            qzeros_offset: first * weight.stride_z * 4,
            scales: weight.scales,
            scales_offset: first * weight.stride_s * 2,
            output: output.address,
            in_dim: weight.in_dim as i32,
            packed_cols: weight.packed_cols() as i32,
            group_size: weight.group_size as i32,
            count: count as i32,
            stride_q: weight.stride_q as i64,
            stride_z: weight.stride_z as i64,
            stride_s: weight.stride_s as i64,
            output_stride: per_expert as i64,
        },
    )
}

/// How the GEMV maps `slots` onto experts and activations.
#[derive(Clone, Copy, Debug, PartialEq, Eq, Structural)]
pub struct GemvSlots {
    /// Number of (expert, activation) pairs evaluated by one launch.
    pub slots: usize,
    /// `Some(addr)`: device `i32[slots]` expert ids; `None`: slot `s` uses
    /// expert `s` (a dense linear uses `slots = 1`).
    pub expert_ids: Option<CudaDeviceAddress>,
    /// `true` when `x` holds `[slots, K]` rows; `false` when all slots share
    /// one `[K]` row.
    pub per_slot_activation: bool,
    /// Optional device `f32[slots]` multiplier folded into the partial sums.
    pub slot_scale: Option<CudaDeviceAddress>,
}

impl GemvSlots {
    pub fn dense() -> (slots: Self)
        ensures
            slots == (GemvSlots {
                slots: 1,
                expert_ids: None,
                per_slot_activation: false,
                slot_scale: None,
            }),
    {
        GemvSlots { slots: 1, expert_ids: None, per_slot_activation: false, slot_scale: None }
    }
}

/// Bytes required for the FP32 partial buffer of [`gemv_partial_into`].
pub fn partial_bytes(out_dim: usize, splits: usize, slots: usize) -> (bytes: usize)
    requires
        out_dim * splits * slots * 4 <= usize::MAX,
        out_dim * splits <= usize::MAX,
    ensures
        bytes == out_dim * splits * slots * 4,
{
    proof {
        let p = out_dim * splits;
        assert(p * slots >= 0) by (nonlinear_arith)
            requires
                p >= 0,
                slots >= 0,
        ;
    }
    out_dim * splits * slots * 4
}

/// Load-time qweight copy in `[expert, N/256, K/4, 32, 4]` word order.
/// Scales and zeros retain their checkpoint format. The original source must
/// remain alive and unchanged when this copy is used.
#[derive(Clone, Copy, Debug, PartialEq, Eq, Structural)]
pub struct BlockedWeights {
    pub q: CudaBuffer,
    pub source_address: usize,
    pub k: usize,
    pub n: usize,
    pub experts: usize,
}

pub const BLOCKED_REPACK: &'static str = "blocked AWQ repack";

pub const BLOCKED_SOURCE: &'static str =
    "blocked AWQ: requires contiguous group-128 weights and N divisible by 256";

pub const BLOCKED_OVERFLOW: &'static str = "blocked AWQ size overflow";

pub open spec fn blocked_source(device: usize, source: AwqWeightView) -> Result<usize, Error> {
    match source.problem(device, BLOCKED_REPACK) {
        Some(error) => Err(error),
        None => if source.group_size != 128 || source.out_dim % 256 != 0 || source.in_dim
            > NATIVE_MAX || source.out_dim > NATIVE_MAX || source.experts > NATIVE_MAX || (
        source.experts > 1 && source.stride_q != source.words()) {
            Err(Error::Other(BLOCKED_SOURCE))
        } else if source.words() * source.experts * 4 > usize::MAX {
            Err(Error::Other(BLOCKED_OVERFLOW))
        } else {
            Ok((source.words() * source.experts * 4) as usize)
        },
    }
}

/// How a blocked copy is made: allocate `bytes` (mapped or in device memory),
/// then `apxinf_w4a16_blocked_repack` from the source into it.
#[derive(Clone, Copy, Debug, PartialEq, Eq, Structural)]
pub struct BlockedRepack {
    pub bytes: usize,
    pub mapped: bool,
    /// Copy the source into the new allocation first and repack back into the
    /// source's own storage.
    pub reuse_source: bool,
    pub source: CudaBuffer,
    pub in_dim: i32,
    pub packed_cols: i32,
    pub expert_count: i32,
    pub k: usize,
    pub n: usize,
    pub experts: usize,
}

pub open spec fn repack_plan(
    source: AwqWeightView,
    bytes: usize,
    mapped: bool,
    reuse_source: bool,
) -> BlockedRepack {
    BlockedRepack {
        bytes,
        mapped,
        reuse_source,
        source: source.qweight,
        in_dim: source.in_dim as i32,
        packed_cols: (source.out_dim / 8) as i32,
        expert_count: source.experts as i32,
        k: source.in_dim,
        n: source.out_dim,
        experts: source.experts,
    }
}

fn plan_repack(source: AwqWeightView, bytes: usize, mapped: bool, reuse_source: bool) -> (plan:
    BlockedRepack)
    ensures
        plan == repack_plan(source, bytes, mapped, reuse_source),
{
    BlockedRepack {
        bytes,
        mapped,
        reuse_source,
        source: source.qweight,
        in_dim: source.in_dim as i32,
        packed_cols: source.packed_cols() as i32,
        expert_count: source.experts as i32,
        k: source.in_dim,
        n: source.out_dim,
        experts: source.experts,
    }
}

impl BlockedWeights {
    /// The size of a blocked copy.
    pub fn validate_source(ctx: &CudaContext, source: AwqWeightView) -> (result: Result<
        usize,
        Error,
    >)
        requires
            source.fits(),
        ensures
            result == blocked_source(ctx.device_id, source),
    {
        source.validate(ctx, BLOCKED_REPACK)?;
        let words: usize = source.qweight_words();
        if source.group_size != 128 || source.out_dim % 256 != 0 || source.in_dim > NATIVE_MAX
            || source.out_dim > NATIVE_MAX || source.experts > NATIVE_MAX || (source.experts > 1
            && source.stride_q != words) {
            return Err(Error::Other(BLOCKED_SOURCE));
        }
        super::super::contracts::checked_matrix_bytes(words, source.experts, 4, BLOCKED_OVERFLOW)
    }

    /// Make a copy beside the source.
    pub fn repack(ctx: &CudaContext, source: AwqWeightView, mapped: bool) -> (result: Result<
        BlockedRepack,
        Error,
    >)
        requires
            source.fits(),
        ensures
            result == (match blocked_source(ctx.device_id, source) {
                Ok(bytes) => Ok::<BlockedRepack, Error>(repack_plan(source, bytes, mapped, false)),
                Err(error) => Err(error),
            }),
    {
        let bytes: usize = Self::validate_source(ctx, source)?;
        Ok(plan_repack(source, bytes, mapped, false))
    }

    /// Move checkpoint-format words to mapped storage and reuse their original
    /// allocation for decode. This overwrites the source: callers must replace
    /// it with the backup before any further AWQ use.
    pub fn repack_reusing_storage(ctx: &CudaContext, source: AwqWeightView) -> (result: Result<
        BlockedRepack,
        Error,
    >)
        requires
            source.fits(),
        ensures
            result == (match blocked_source(ctx.device_id, source) {
                Ok(bytes) => Ok::<BlockedRepack, Error>(repack_plan(source, bytes, true, true)),
                Err(error) => Err(error),
            }),
    {
        let bytes: usize = Self::validate_source(ctx, source)?;
        Ok(plan_repack(source, bytes, true, true))
    }

    /// The copy, once its allocation exists. Where the source's storage is
    /// reused, the allocation is the backup and becomes the source.
    pub fn from_repack(plan: &BlockedRepack, allocated: CudaBuffer) -> (weights: Self)
        ensures
            weights == (BlockedWeights {
                q: if plan.reuse_source {
                    plan.source
                } else {
                    allocated
                },
                source_address: if plan.reuse_source {
                    allocated.address
                } else {
                    plan.source.address
                },
                k: plan.k,
                n: plan.n,
                experts: plan.experts,
            }),
    {
        BlockedWeights {
            q: if plan.reuse_source {
                plan.source
            } else {
                allocated
            },
            source_address: if plan.reuse_source {
                allocated.address
            } else {
                plan.source.address
            },
            k: plan.k,
            n: plan.n,
            experts: plan.experts,
        }
    }
}

/// How the kernel turns a nibble into a number.
#[derive(Clone, Copy, Debug, PartialEq, Eq, Structural)]
pub enum NibbleConversion {
    Standard,
    Magic,
    Pair,
}

/// The conversion that the values of `APXINF_QWEN3MOE_GEMV_PAIR` and
/// `APXINF_QWEN3MOE_GEMV_MAGIC` ask for.
pub open spec fn asked_conversion(pair: Option<&str>, magic: Option<&str>) -> NibbleConversion {
    if pair matches Some(text) && text@ == "1"@ {
        NibbleConversion::Pair
    } else if magic matches Some(text) && text@ == "1"@ {
        NibbleConversion::Magic
    } else {
        NibbleConversion::Standard
    }
}

fn is_one(value: Option<&str>) -> (result: bool)
    ensures
        result == (value matches Some(text) && text@ == "1"@),
{
    match value {
        Some(text) => same(&chars_of(text), "1"),
        None => false,
    }
}

/// Which GEMV kernel is launched: `apxinf_w4a16_gemv_partial_bf16` and its
/// blocked, magic and pair forms.
#[derive(Clone, Copy, Debug, PartialEq, Eq, Structural)]
pub enum GemvKernel {
    Plain,
    Blocked,
    Magic,
    MagicBlocked,
    PairBlocked,
}

/// The arguments of a GEMV launch.
#[derive(Clone, Copy, Debug, PartialEq, Eq, Structural)]
pub struct GemvLaunch {
    pub kernel: GemvKernel,
    pub x: usize,
    pub x_stride: i64,
    pub qweight: usize,
    pub qzeros: usize,
    pub scales: usize,
    pub expert_ids: Option<usize>,
    pub stride_q: i64,
    pub stride_z: i64,
    pub stride_s: i64,
    pub slot_scale: Option<usize>,
    pub partial: usize,
    pub in_dim: i32,
    pub packed_cols: i32,
    pub group_size: i32,
    pub splits: i32,
    pub slots: i32,
}

pub const GEMV: &'static str = "W4A16 GEMV";

pub const BLOCKED: &'static str = "blocked AWQ";

pub const BLOCKED_MISMATCH: &'static str = "blocked AWQ source mismatch";

pub const GEMV_EMPTY: &'static str = "W4A16 GEMV needs splits >= 1 and slots >= 1";

pub const GEMV_SLOTS: &'static str = "W4A16 GEMV: more slots than experts";

pub const PAIR_BLOCKED: &'static str = "GEMV_PAIR requires blocked weights";

/// Whether a blocked copy was made of the given view.
pub open spec fn copy_matches(weight: AwqWeightView, copy: BlockedWeights) -> bool {
    &&& copy.source_address == weight.qweight.address
    &&& copy.k == weight.in_dim
    &&& copy.n == weight.out_dim
    &&& copy.experts == weight.experts
    &&& weight.group_size == 128
}

/// What is wrong with a blocked copy.
pub open spec fn copy_problem(device: usize, weight: AwqWeightView, blocked: Option<BlockedWeights>) -> Option<
    Error,
> {
    match blocked {
        Some(copy) => if !copy_matches(weight, copy) {
            Some(Error::Other(BLOCKED_MISMATCH))
        } else {
            buffer_problem(device, BLOCKED, "qweight", copy.q, weight.words() * weight.experts * 4)
        },
        None => None,
    }
}

pub open spec fn optional_address_problem(
    device: usize,
    operation: &'static str,
    name: &'static str,
    address: Option<CudaDeviceAddress>,
    required: int,
) -> Option<Error> {
    match address {
        Some(address) => address_problem(device, operation, name, address, required),
        None => None,
    }
}

pub open spec fn activation_rows(slots: GemvSlots) -> usize {
    if slots.per_slot_activation {
        slots.slots
    } else {
        1
    }
}

pub open spec fn gemv_problem(
    device: usize,
    x: CudaBuffer,
    weight: AwqWeightView,
    blocked: Option<BlockedWeights>,
    conversion: NibbleConversion,
    slots: GemvSlots,
    splits: usize,
    partial: CudaBuffer,
) -> Option<Error> {
    first_of(
        weight.problem(device, GEMV),
        first_of(
            copy_problem(device, weight, blocked),
            if splits == 0 || slots.slots == 0 {
                Some(Error::Other(GEMV_EMPTY))
            } else if slots.expert_ids is None && slots.slots > weight.experts {
                Some(Error::Other(GEMV_SLOTS))
            } else {
                first_of(
                    buffer_problem(
                        device,
                        GEMV,
                        "x",
                        x,
                        activation_rows(slots) * weight.in_dim * 2,
                    ),
                    first_of(
                        buffer_problem(
                            device,
                            GEMV,
                            "partial",
                            partial,
                            weight.out_dim * splits * slots.slots * 4,
                        ),
                        first_of(
                            optional_address_problem(
                                device,
                                GEMV,
                                "expert_ids",
                                slots.expert_ids,
                                slots.slots * 4,
                            ),
                            first_of(
                                optional_address_problem(
                                    device,
                                    GEMV,
                                    "slot_scale",
                                    slots.slot_scale,
                                    slots.slots * 4,
                                ),
                                if blocked is None && conversion == NibbleConversion::Pair {
                                    Some(Error::Other(PAIR_BLOCKED))
                                } else {
                                    None
                                },
                            ),
                        ),
                    ),
                )
            },
        ),
    )
}

pub open spec fn gemv_kernel(blocked: bool, conversion: NibbleConversion) -> GemvKernel {
    match conversion {
        NibbleConversion::Pair => GemvKernel::PairBlocked,
        NibbleConversion::Magic => if blocked {
            GemvKernel::MagicBlocked
        } else {
            GemvKernel::Magic
        },
        NibbleConversion::Standard => if blocked {
            GemvKernel::Blocked
        } else {
            GemvKernel::Plain
        },
    }
}

pub open spec fn address_of(address: Option<CudaDeviceAddress>) -> Option<usize> {
    match address {
        Some(address) => Some(address.address),
        None => None,
    }
}

pub open spec fn gemv_launch(
    x: CudaBuffer,
    weight: AwqWeightView,
    blocked: Option<BlockedWeights>,
    conversion: NibbleConversion,
    slots: GemvSlots,
    splits: usize,
    partial: CudaBuffer,
) -> GemvLaunch {
    GemvLaunch {
        kernel: gemv_kernel(blocked is Some, conversion),
        x: x.address,
        x_stride: if slots.per_slot_activation {
            weight.in_dim as i64
        } else {
            0
        },
        qweight: match blocked {
            Some(copy) => copy.q.address,
            None => weight.qweight.address,
        },
        qzeros: weight.qzeros.address,
        scales: weight.scales.address,
        expert_ids: address_of(slots.expert_ids),
        stride_q: weight.stride_q as i64,
        stride_z: weight.stride_z as i64,
        stride_s: weight.stride_s as i64,
        slot_scale: address_of(slots.slot_scale),
        partial: partial.address,
        in_dim: weight.in_dim as i32,
        packed_cols: (weight.out_dim / 8) as i32,
        group_size: weight.group_size as i32,
        splits: splits as i32,
        slots: slots.slots as i32,
    }
}

/// Whether the sizes of a GEMV are machine words, as far as its operands are not
/// refused before their sizes are asked for.
pub open spec fn gemv_fits(
    device: usize,
    weight: AwqWeightView,
    blocked: Option<BlockedWeights>,
    slots: GemvSlots,
    splits: usize,
) -> bool {
    &&& weight.fits()
    &&& weight.problem(device, GEMV) is None && (blocked matches Some(copy) && copy_matches(
        weight,
        copy,
    )) ==> weight.words() * weight.experts * 4 <= usize::MAX
    &&& weight.problem(device, GEMV) is None && copy_problem(device, weight, blocked) is None
        && splits != 0 && slots.slots != 0 && (slots.expert_ids is Some || slots.slots
        <= weight.experts) ==> {
        &&& activation_rows(slots) * weight.in_dim * 2 <= usize::MAX
        &&& weight.out_dim * splits <= usize::MAX
        &&& weight.out_dim * splits * slots.slots * 4 <= usize::MAX
    }
}

/// Select a repacked GEMV without changing its partial reduction order.
pub fn gemv_partial_repacked_into(
    ctx: &CudaContext,
    x: &CudaBuffer,
    weight: AwqWeightView,
    blocked: Option<BlockedWeights>,
    slots: GemvSlots,
    splits: usize,
    partial: &CudaBuffer,
    pair: Option<&str>,
    magic: Option<&str>,
) -> (result: Result<GemvLaunch, Error>)
    requires
        gemv_fits(ctx.device_id, weight, blocked, slots, splits),
    ensures
        result == unless(
            gemv_problem(
                ctx.device_id,
                *x,
                weight,
                blocked,
                asked_conversion(pair, magic),
                slots,
                splits,
                *partial,
            ),
            gemv_launch(
                *x,
                weight,
                blocked,
                asked_conversion(pair, magic),
                slots,
                splits,
                *partial,
            ),
        ),
{
    let conversion = if is_one(pair) {
        NibbleConversion::Pair
    } else if is_one(magic) {
        NibbleConversion::Magic
    } else {
        NibbleConversion::Standard
    };
    gemv_partial_impl(ctx, x, weight, blocked, conversion, slots, splits, partial)
}

/// Split-K W4A16 GEMV. Writes FP32 partial sums `[slots, splits, N]`.
pub fn gemv_partial_into(
    ctx: &CudaContext,
    x: &CudaBuffer,
    weight: AwqWeightView,
    slots: GemvSlots,
    splits: usize,
    partial: &CudaBuffer,
) -> (result: Result<GemvLaunch, Error>)
    requires
        gemv_fits(ctx.device_id, weight, None, slots, splits),
    ensures
        result == unless(
            gemv_problem(
                ctx.device_id,
                *x,
                weight,
                None,
                NibbleConversion::Standard,
                slots,
                splits,
                *partial,
            ),
            gemv_launch(
                *x,
                weight,
                None,
                NibbleConversion::Standard,
                slots,
                splits,
                *partial,
            ),
        ),
{
    gemv_partial_impl(
        ctx,
        x,
        weight,
        None,
        NibbleConversion::Standard,
        slots,
        splits,
        partial,
    )
}

pub fn gemv_partial_impl(
    ctx: &CudaContext,
    x: &CudaBuffer,
    weight: AwqWeightView,
    blocked: Option<BlockedWeights>,
    conversion: NibbleConversion,
    slots: GemvSlots,
    splits: usize,
    partial: &CudaBuffer,
) -> (result: Result<GemvLaunch, Error>)
    requires
        gemv_fits(ctx.device_id, weight, blocked, slots, splits),
    ensures
        result == unless(
            gemv_problem(
                ctx.device_id,
                *x,
                weight,
                blocked,
                conversion,
                slots,
                splits,
                *partial,
            ),
            gemv_launch(*x, weight, blocked, conversion, slots, splits, *partial),
        ),
{
    weight.validate(ctx, GEMV)?;
    if let Some(copy) = blocked {
        if copy.source_address != weight.qweight.address || copy.k != weight.in_dim || copy.n
            != weight.out_dim || copy.experts != weight.experts || weight.group_size != 128 {
            return Err(Error::Other(BLOCKED_MISMATCH));
        }
        let words: usize = weight.qweight_words();
        proof {
            assert(words * weight.experts >= 0) by (nonlinear_arith)
                requires
                    words >= 0,
                    weight.experts >= 0,
            ;
        }
        require_buffer(ctx, BLOCKED, "qweight", &copy.q, words * weight.experts * 4)?;
    }
    if splits == 0 || slots.slots == 0 {
        return Err(Error::Other(GEMV_EMPTY));
    }
    if slots.expert_ids.is_none() && slots.slots > weight.experts {
        return Err(Error::Other(GEMV_SLOTS));
    }
    let rows: usize = if slots.per_slot_activation {
        slots.slots
    } else {
        1
    };
    proof {
        assert(rows * weight.in_dim >= 0) by (nonlinear_arith)
            requires
                rows >= 0,
                weight.in_dim >= 0,
        ;
        let columns = weight.out_dim * splits;
        assert(slots.slots <= columns * slots.slots) by (nonlinear_arith)
            requires
                columns == weight.out_dim * splits,
                weight.out_dim >= 1,
                splits >= 1,
                slots.slots >= 0,
        ;
    }
    require_buffer(ctx, GEMV, "x", x, rows * weight.in_dim * 2)?;
    require_buffer(
        ctx,
        GEMV,
        "partial",
        partial,
        partial_bytes(weight.out_dim, splits, slots.slots),
    )?;
    if let Some(ids) = slots.expert_ids {
        require_address(ctx, GEMV, "expert_ids", ids, slots.slots * 4)?;
    }
    if let Some(scale) = slots.slot_scale {
        require_address(ctx, GEMV, "slot_scale", scale, slots.slots * 4)?;
    }
    let kernel = match (blocked.is_some(), conversion) {
        (true, NibbleConversion::Pair) => GemvKernel::PairBlocked,
        (false, NibbleConversion::Pair) => {
            return Err(Error::Other(PAIR_BLOCKED));
        },
        (true, NibbleConversion::Magic) => GemvKernel::MagicBlocked,
        (false, NibbleConversion::Magic) => GemvKernel::Magic,
        (true, NibbleConversion::Standard) => GemvKernel::Blocked,
        (false, NibbleConversion::Standard) => GemvKernel::Plain,
    };
    Ok(
        GemvLaunch {
            kernel,
            x: x.address,
            x_stride: if slots.per_slot_activation {
                weight.in_dim as i64
            } else {
                0
            },
            qweight: match blocked {
                Some(copy) => copy.q.address,
                None => weight.qweight.address,
            },
            qzeros: weight.qzeros.address,
            scales: weight.scales.address,
            expert_ids: match slots.expert_ids {
                Some(address) => Some(address.address),
                None => None,
            },
            stride_q: weight.stride_q as i64,
            stride_z: weight.stride_z as i64,
            stride_s: weight.stride_s as i64,
            slot_scale: match slots.slot_scale {
                Some(address) => Some(address.address),
                None => None,
            },
            partial: partial.address,
            in_dim: weight.in_dim as i32,
            packed_cols: weight.packed_cols() as i32,
            group_size: weight.group_size as i32,
            splits: splits as i32,
            slots: slots.slots as i32,
        },
    )
}

/// A blocked copy of a view matches that view: its GEMV is refused for nothing
/// that has to do with the copy, once the copy's storage is as large as was
/// planned.
pub proof fn lemma_blocked_copy_matches(device: usize, source: AwqWeightView, copy: BlockedWeights)
    requires
        blocked_source(device, source) is Ok,
        copy.source_address == source.qweight.address,
        copy.k == source.in_dim,
        copy.n == source.out_dim,
        copy.experts == source.experts,
        copy.q.device == device,
        copy.q.len == blocked_source(device, source).unwrap(),
    ensures
        copy_problem(device, source, Some(copy)) is None,
{
}

/// A repacked GEMV differs from the plain one in the kernel and in the copy of
/// the weight that it reads, and in nothing that orders its partial sums.
pub proof fn lemma_repacking_keeps_the_reduction(
    x: CudaBuffer,
    weight: AwqWeightView,
    blocked: Option<BlockedWeights>,
    conversion: NibbleConversion,
    slots: GemvSlots,
    splits: usize,
    partial: CudaBuffer,
)
    ensures
        ({
            let plain = gemv_launch(
                x,
                weight,
                None,
                NibbleConversion::Standard,
                slots,
                splits,
                partial,
            );
            let repacked = gemv_launch(x, weight, blocked, conversion, slots, splits, partial);
            repacked == GemvLaunch { kernel: repacked.kernel, qweight: repacked.qweight, ..plain }
        }),
{
}

/// `apxinf_partial_sum_bf16`.
#[derive(Clone, Copy, Debug, PartialEq, Eq, Structural)]
pub struct PartialSumLaunch {
    pub partial: usize,
    pub output: usize,
    pub out_dim: i32,
    pub count: i32,
}

pub const SUM: &'static str = "partial sum";

pub const SUM_EMPTY: &'static str = "partial sum needs count >= 1 and N >= 1";

/// `output[n] = sum_{c < count} partial[c][n]` as BF16 `[N]`.
pub fn partial_sum_into(
    ctx: &CudaContext,
    partial: &CudaBuffer,
    count: usize,
    out_dim: usize,
    output: &CudaBuffer,
) -> (result: Result<PartialSumLaunch, Error>)
    requires
        out_dim * count * 4 <= usize::MAX,
        out_dim * 2 <= usize::MAX,
    ensures
        result == unless(
            if count == 0 || out_dim == 0 {
                Some(Error::Other(SUM_EMPTY))
            } else {
                first_of(
                    buffer_problem(ctx.device_id, SUM, "partial", *partial, out_dim * count * 4),
                    buffer_problem(ctx.device_id, SUM, "output", *output, out_dim * 2),
                )
            },
            PartialSumLaunch {
                partial: partial.address,
                output: output.address,
                out_dim: out_dim as i32,
                count: count as i32,
            },
        ),
{
    if count == 0 || out_dim == 0 {
        return Err(Error::Other(SUM_EMPTY));
    }
    proof {
        assert(out_dim * count * 1 == out_dim * count) by (nonlinear_arith);
        assert(out_dim * count <= out_dim * count * 4) by (nonlinear_arith);
    }
    require_buffer(ctx, SUM, "partial", partial, partial_bytes(out_dim, count, 1))?;
    require_buffer(ctx, SUM, "output", output, out_dim * 2)?;
    Ok(
        PartialSumLaunch {
            partial: partial.address,
            output: output.address,
            out_dim: out_dim as i32,
            count: count as i32,
        },
    )
}

/// `apxinf_partial_silu_mul_bf16`.
#[derive(Clone, Copy, Debug, PartialEq, Eq, Structural)]
pub struct PartialSiluLaunch {
    pub partial: usize,
    pub output: usize,
    pub inter: i32,
    pub splits: i32,
    pub slots: i32,
}

pub const SWIGLU: &'static str = "partial SwiGLU";

pub const SWIGLU_EMPTY: &'static str = "partial SwiGLU needs non-zero dimensions";

/// Reduce `[slots, splits, 2*inter]` gate/up partials into BF16
/// `[slots, inter]` SwiGLU activations.
pub fn partial_silu_mul_into(
    ctx: &CudaContext,
    partial: &CudaBuffer,
    slots: usize,
    splits: usize,
    inter: usize,
    output: &CudaBuffer,
) -> (result: Result<PartialSiluLaunch, Error>)
    requires
        2 * inter <= usize::MAX,
        2 * inter * splits <= usize::MAX,
        2 * inter * splits * slots * 4 <= usize::MAX,
        slots * inter * 2 <= usize::MAX,
    ensures
        result == unless(
            if slots == 0 || splits == 0 || inter == 0 {
                Some(Error::Other(SWIGLU_EMPTY))
            } else {
                first_of(
                    buffer_problem(
                        ctx.device_id,
                        SWIGLU,
                        "partial",
                        *partial,
                        2 * inter * splits * slots * 4,
                    ),
                    buffer_problem(ctx.device_id, SWIGLU, "output", *output, slots * inter * 2),
                )
            },
            PartialSiluLaunch {
                partial: partial.address,
                output: output.address,
                inter: inter as i32,
                splits: splits as i32,
                slots: slots as i32,
            },
        ),
{
    if slots == 0 || splits == 0 || inter == 0 {
        return Err(Error::Other(SWIGLU_EMPTY));
    }
    proof {
        assert(slots * inter <= slots * inter * 2) by (nonlinear_arith);
    }
    require_buffer(ctx, SWIGLU, "partial", partial, partial_bytes(2 * inter, splits, slots))?;
    require_buffer(ctx, SWIGLU, "output", output, slots * inter * 2)?;
    Ok(
        PartialSiluLaunch {
            partial: partial.address,
            output: output.address,
            inter: inter as i32,
            splits: splits as i32,
            slots: slots as i32,
        },
    )
}

/// `apxinf_partial_residual_rms_bf16` for one row, its `_rows` form for
/// several, and the `_f16_weight` forms of both.
#[derive(Clone, Copy, Debug, PartialEq, Eq, Structural)]
pub struct ResidualRmsLaunch {
    pub f16_weight: bool,
    pub x: usize,
    pub partial: usize,
    pub weight: usize,
    pub output: usize,
    pub cols: i32,
    /// The number of rows, where the kernel for several rows is launched.
    pub rows: Option<i32>,
    pub count: i32,
    pub eps: u32,
}

pub const RMS: &'static str = "partial residual RMSNorm";

pub const RMS_ROWS: &'static str = "partial residual RMSNorm rows";

pub const RMS_INVALID: &'static str = "partial residual RMSNorm: invalid geometry or epsilon";

pub const RMS_OVERFLOW: &'static str = "partial residual RMSNorm size overflow";

pub const RMS_ROW_INVALID: &'static str =
    "partial residual RMSNorm: invalid row geometry or epsilon";

pub const RMS_ROW_OVERFLOW: &'static str = "partial residual RMSNorm row size overflow";

pub const RMS_PARTIAL_OVERFLOW: &'static str = "partial residual RMSNorm partial size overflow";

pub open spec fn rms_geometry(cols: usize, count: usize, eps: u32) -> bool {
    0 < cols <= 8192 && 0 < count <= NATIVE_MAX && positive_bits(eps)
}

pub open spec fn rms_problem(
    device: usize,
    x: CudaBuffer,
    partial: CudaBuffer,
    weight: CudaBuffer,
    output: CudaBuffer,
    cols: usize,
    count: usize,
    eps: u32,
) -> Option<Error> {
    if !rms_geometry(cols, count, eps) {
        Some(Error::Other(RMS_INVALID))
    } else if count * cols * 4 > usize::MAX {
        Some(Error::Other(RMS_OVERFLOW))
    } else {
        first_of(
            buffer_problem(device, RMS, "x", x, cols * 2),
            first_of(
                buffer_problem(device, RMS, "partial", partial, count * cols * 4),
                first_of(
                    buffer_problem(device, RMS, "weight", weight, cols * 2),
                    buffer_problem(device, RMS, "output", output, cols * 2),
                ),
            ),
        )
    }
}

fn residual_rms(
    ctx: &CudaContext,
    f16_weight: bool,
    x: &CudaBuffer,
    partial: &CudaBuffer,
    weight: &CudaBuffer,
    output: &CudaBuffer,
    cols: usize,
    count: usize,
    eps: u32,
) -> (result: Result<ResidualRmsLaunch, Error>)
    ensures
        result == unless(
            rms_problem(ctx.device_id, *x, *partial, *weight, *output, cols, count, eps),
            rms_launch(f16_weight, *x, *partial, *weight, *output, cols, None, count, eps),
        ),
{
    if cols == 0 || cols > 8192 || count == 0 || count > NATIVE_MAX || !is_positive(eps) {
        return Err(Error::Other(RMS_INVALID));
    }
    let size: usize = super::super::contracts::checked_matrix_bytes(count, cols, 4, RMS_OVERFLOW)?;
    require_buffer(ctx, RMS, "x", x, cols * 2)?;
    require_buffer(ctx, RMS, "partial", partial, size)?;
    require_buffer(ctx, RMS, "weight", weight, cols * 2)?;
    require_buffer(ctx, RMS, "output", output, cols * 2)?;
    Ok(
        ResidualRmsLaunch {
            f16_weight,
            x: x.address,
            partial: partial.address,
            weight: weight.address,
            output: output.address,
            cols: cols as i32,
            rows: None,
            count: count as i32,
            eps,
        },
    )
}

pub open spec fn rms_launch(
    f16_weight: bool,
    x: CudaBuffer,
    partial: CudaBuffer,
    weight: CudaBuffer,
    output: CudaBuffer,
    cols: usize,
    rows: Option<usize>,
    count: usize,
    eps: u32,
) -> ResidualRmsLaunch {
    ResidualRmsLaunch {
        f16_weight,
        x: x.address,
        partial: partial.address,
        weight: weight.address,
        output: output.address,
        cols: cols as i32,
        rows: match rows {
            Some(rows) => Some(rows as i32),
            None => None,
        },
        count: count as i32,
        eps,
    }
}

/// Split/slot reduction followed by residual add and RMSNorm, one decode row.
///
/// See [`partial_residual_rms_rows_into`] for several independent token rows.
pub fn partial_residual_rms_into(
    ctx: &CudaContext,
    x: &CudaBuffer,
    partial: &CudaBuffer,
    weight: &CudaBuffer,
    output: &CudaBuffer,
    cols: usize,
    count: usize,
    eps: u32,
) -> (result: Result<ResidualRmsLaunch, Error>)
    ensures
        result == unless(
            rms_problem(ctx.device_id, *x, *partial, *weight, *output, cols, count, eps),
            rms_launch(false, *x, *partial, *weight, *output, cols, None, count, eps),
        ),
{
    residual_rms(ctx, false, x, partial, weight, output, cols, count, eps)
}

/// BF16 activations with checkpoint FP16 RMSNorm weights.
pub fn partial_residual_rms_f16_weight_into(
    ctx: &CudaContext,
    x: &CudaBuffer,
    partial: &CudaBuffer,
    weight: &CudaBuffer,
    output: &CudaBuffer,
    cols: usize,
    count: usize,
    eps: u32,
) -> (result: Result<ResidualRmsLaunch, Error>)
    ensures
        result == unless(
            rms_problem(ctx.device_id, *x, *partial, *weight, *output, cols, count, eps),
            rms_launch(true, *x, *partial, *weight, *output, cols, None, count, eps),
        ),
{
    residual_rms(ctx, true, x, partial, weight, output, cols, count, eps)
}

pub open spec fn rms_rows_problem(
    device: usize,
    x: CudaBuffer,
    partial: CudaBuffer,
    weight: CudaBuffer,
    output: CudaBuffer,
    cols: usize,
    rows: usize,
    count: usize,
    eps: u32,
) -> Option<Error> {
    if rows * cols > usize::MAX || rows * cols > u32::MAX {
        Some(Error::Other(RMS_ROW_OVERFLOW))
    } else if !(0 < rows <= NATIVE_MAX) || !rms_geometry(cols, count, eps) {
        Some(Error::Other(RMS_ROW_INVALID))
    } else if rows * cols * count * 4 > usize::MAX {
        Some(Error::Other(RMS_PARTIAL_OVERFLOW))
    } else {
        first_of(
            buffer_problem(device, RMS_ROWS, "x", x, rows * cols * 2),
            first_of(
                buffer_problem(device, RMS_ROWS, "partial", partial, rows * cols * count * 4),
                first_of(
                    buffer_problem(device, RMS_ROWS, "weight", weight, cols * 2),
                    buffer_problem(device, RMS_ROWS, "output", output, rows * cols * 2),
                ),
            ),
        )
    }
}

fn residual_rms_rows(
    ctx: &CudaContext,
    f16_weight: bool,
    x: &CudaBuffer,
    partial: &CudaBuffer,
    weight: &CudaBuffer,
    output: &CudaBuffer,
    cols: usize,
    rows: usize,
    count: usize,
    eps: u32,
) -> (result: Result<ResidualRmsLaunch, Error>)
    requires
        rows * cols <= u32::MAX ==> rows * cols * 2 <= usize::MAX,
    ensures
        result == (if rows == 1 {
            unless(
                rms_problem(ctx.device_id, *x, *partial, *weight, *output, cols, count, eps),
                rms_launch(f16_weight, *x, *partial, *weight, *output, cols, None, count, eps),
            )
        } else {
            unless(
                rms_rows_problem(
                    ctx.device_id,
                    *x,
                    *partial,
                    *weight,
                    *output,
                    cols,
                    rows,
                    count,
                    eps,
                ),
                rms_launch(f16_weight, *x, *partial, *weight, *output, cols, Some(rows), count, eps),
            )
        }),
{
    if rows == 1 {
        return residual_rms(ctx, f16_weight, x, partial, weight, output, cols, count, eps);
    }
    let elements: usize = match rows.checked_mul(cols) {
        Some(elements) => elements,
        None => {
            return Err(Error::Other(RMS_ROW_OVERFLOW));
        },
    };
    if elements > 0xffff_ffff {
        return Err(Error::Other(RMS_ROW_OVERFLOW));
    }
    if rows == 0 || rows > NATIVE_MAX || cols == 0 || cols > 8192 || count == 0 || count
        > NATIVE_MAX || !is_positive(eps) {
        return Err(Error::Other(RMS_ROW_INVALID));
    }
    let partial_size: usize = super::super::contracts::checked_matrix_bytes(
        elements,
        count,
        4,
        RMS_PARTIAL_OVERFLOW,
    )?;
    require_buffer(ctx, RMS_ROWS, "x", x, elements * 2)?;
    require_buffer(ctx, RMS_ROWS, "partial", partial, partial_size)?;
    require_buffer(ctx, RMS_ROWS, "weight", weight, cols * 2)?;
    require_buffer(ctx, RMS_ROWS, "output", output, elements * 2)?;
    Ok(
        ResidualRmsLaunch {
            f16_weight,
            x: x.address,
            partial: partial.address,
            weight: weight.address,
            output: output.address,
            cols: cols as i32,
            rows: Some(rows as i32),
            count: count as i32,
            eps,
        },
    )
}

/// Reduce `[rows, count, cols]` partials before residual add and RMSNorm.
/// Every row follows the same FP32 sum and BF16 boundary as the decode path.
pub fn partial_residual_rms_rows_into(
    ctx: &CudaContext,
    x: &CudaBuffer,
    partial: &CudaBuffer,
    weight: &CudaBuffer,
    output: &CudaBuffer,
    cols: usize,
    rows: usize,
    count: usize,
    eps: u32,
) -> (result: Result<ResidualRmsLaunch, Error>)
    requires
        rows * cols <= u32::MAX ==> rows * cols * 2 <= usize::MAX,
    ensures
        result == (if rows == 1 {
            unless(
                rms_problem(ctx.device_id, *x, *partial, *weight, *output, cols, count, eps),
                rms_launch(false, *x, *partial, *weight, *output, cols, None, count, eps),
            )
        } else {
            unless(
                rms_rows_problem(
                    ctx.device_id,
                    *x,
                    *partial,
                    *weight,
                    *output,
                    cols,
                    rows,
                    count,
                    eps,
                ),
                rms_launch(false, *x, *partial, *weight, *output, cols, Some(rows), count, eps),
            )
        }),
{
    residual_rms_rows(ctx, false, x, partial, weight, output, cols, rows, count, eps)
}

/// BF16 activations with checkpoint FP16 RMSNorm weights.
pub fn partial_residual_rms_rows_f16_weight_into(
    ctx: &CudaContext,
    x: &CudaBuffer,
    partial: &CudaBuffer,
    weight: &CudaBuffer,
    output: &CudaBuffer,
    cols: usize,
    rows: usize,
    count: usize,
    eps: u32,
) -> (result: Result<ResidualRmsLaunch, Error>)
    requires
        rows * cols <= u32::MAX ==> rows * cols * 2 <= usize::MAX,
    ensures
        result == (if rows == 1 {
            unless(
                rms_problem(ctx.device_id, *x, *partial, *weight, *output, cols, count, eps),
                rms_launch(true, *x, *partial, *weight, *output, cols, None, count, eps),
            )
        } else {
            unless(
                rms_rows_problem(
                    ctx.device_id,
                    *x,
                    *partial,
                    *weight,
                    *output,
                    cols,
                    rows,
                    count,
                    eps,
                ),
                rms_launch(true, *x, *partial, *weight, *output, cols, Some(rows), count, eps),
            )
        }),
{
    residual_rms_rows(ctx, true, x, partial, weight, output, cols, rows, count, eps)
}

} // verus!
