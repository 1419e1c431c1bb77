//! Narrow grouped AutoAWQ/BF16 Marlin contract. Repacking is load-time only.

use super::super::contracts::{
    buffer_problem, checked_matrix_bytes, first_of, require_buffer, unless,
};
use super::tiles::{
    all_tiles, are_offsets, check_offsets, cut, lemma_tile_bounds, lemma_tile_count, Tile,
};
use super::w4a16::{AwqWeightView, NATIVE_MAX};
use crate::context::CudaContext;
use crate::error::Error;
use crate::text::{chars_of, same};
use crate::types::{host_is_64_bit, CudaBuffer};
use vstd::prelude::*;

verus! {

/// Owns a repacked copy; original AWQ storage remains available to decode.
#[derive(Clone, Copy, Debug, PartialEq, Eq, Structural)]
pub struct Weights {
    pub q: CudaBuffer,
    pub z: CudaBuffer,
    pub s: CudaBuffer,
    pub k: usize,
    pub n: usize,
    pub experts: usize,
    pub fused_silu: bool,
}

/// How the copies are made: `apxinf_marlin_prepare`, the allocations (mapped or
/// in device memory), then `apxinf_marlin_repack`. With a scratch buffer the
/// stream is synchronized before that is released.
#[derive(Clone, Copy, Debug, PartialEq, Eq, Structural)]
pub struct RepackPlan {
    pub q_bytes: usize,
    pub z_bytes: usize,
    pub s_bytes: usize,
    /// One expert's transient scratch, where gate and up columns are paired.
    pub scratch_bytes: Option<usize>,
    pub mapped: bool,
    pub qweight: usize,
    pub qzeros: usize,
    pub scales: usize,
    pub k: usize,
    pub n: usize,
    pub experts: usize,
    pub fused_silu: bool,
}

pub const REPACK: &'static str = "Marlin repack";

pub const REPACK_SOURCE: &'static str =
    "Marlin: requires SM80+, contiguous experts, group 128, K>128 and N divisible by 256";

pub const OVERFLOW: &'static str = "Marlin: size overflow";

pub open spec fn at_least_16(bytes: int) -> int {
    if bytes < 16 {
        16
    } else {
        bytes
    }
}

fn padded(bytes: usize) -> (result: usize)
    ensures
        result == at_least_16(bytes as int),
{
    if bytes < 16 {
        16
    } else {
        bytes
    }
}

/// Whether a view can be repacked.
pub open spec fn repackable(ctx: CudaContext, source: AwqWeightView) -> bool {
    &&& ctx.caps.compute_major >= 8
    &&& source.group_size == 128
    &&& source.in_dim > 128
    &&& source.out_dim % 256 == 0
    &&& source.in_dim <= NATIVE_MAX
    &&& source.out_dim <= NATIVE_MAX
    &&& source.experts <= NATIVE_MAX
    &&& source.experts > 1 ==> source.stride_q == source.words() && source.stride_z
        == source.zero_words() && source.stride_s == source.scale_elements()
}

pub open spec fn repack_problem(ctx: CudaContext, source: AwqWeightView) -> Option<Error> {
    first_of(
        source.problem(ctx.device_id, REPACK),
        if !repackable(ctx, source) {
            Some(Error::Other(REPACK_SOURCE))
        } else if source.experts * source.words() * 4 > usize::MAX || source.experts
            * source.zero_words() * 4 > usize::MAX || source.experts * source.scale_elements() * 2
            > usize::MAX {
            Some(Error::Other(OVERFLOW))
        } else {
            None
        },
    )
}

pub open spec fn repack_plan(source: AwqWeightView, mapped: bool, fused_silu: bool) -> RepackPlan {
    RepackPlan {
        q_bytes: (source.experts * source.words() * 4) as usize,
        z_bytes: (source.experts * source.zero_words() * 4) as usize,
        s_bytes: (source.experts * source.scale_elements() * 2) as usize,
        scratch_bytes: if fused_silu {
            Some(at_least_16(source.words() * 4) as usize)
        } else {
            None
        },
        mapped,
        qweight: source.qweight.address,
        qzeros: source.qzeros.address,
        scales: source.scales.address,
        k: source.in_dim,
        n: source.out_dim,
        experts: source.experts,
        fused_silu,
    }
}

impl Weights {
    pub fn repack(ctx: &CudaContext, source: AwqWeightView, mapped: bool) -> (result: Result<
        RepackPlan,
        Error,
    >)
        requires
            source.fits(),
        ensures
            result == unless(repack_problem(*ctx, source), repack_plan(source, mapped, false)),
    {
        Self::repack_with_silu(ctx, source, mapped, false)
    }

    /// Pair gate/up columns and emit rounded SwiGLU directly from FP16 GEMM.
    pub fn repack_with_silu(
        ctx: &CudaContext,
        source: AwqWeightView,
        mapped: bool,
        fused_silu: bool,
    ) -> (result: Result<RepackPlan, Error>)
        requires
            source.fits(),
        ensures
            result == unless(
                repack_problem(*ctx, source),
                repack_plan(source, mapped, fused_silu),
            ),
    {
        source.validate(ctx, REPACK)?;
        let words: usize = source.qweight_words();
        let zeros: usize = source.qzeros_words();
        let scales: usize = source.scales_elements();
        if ctx.caps.compute_major < 8 || source.group_size != 128 || source.in_dim <= 128
            || source.out_dim % 256 != 0 || source.in_dim > NATIVE_MAX || source.out_dim
            > NATIVE_MAX || source.experts > NATIVE_MAX || (source.experts > 1 && (source.stride_q
            != words || source.stride_z != zeros || source.stride_s != scales)) {
            return Err(Error::Other(REPACK_SOURCE));
        }
        let q_bytes: usize = checked_matrix_bytes(source.experts, words, 4, OVERFLOW)?;
        let z_bytes: usize = checked_matrix_bytes(source.experts, zeros, 4, OVERFLOW)?;
        let s_bytes: usize = checked_matrix_bytes(source.experts, scales, 2, OVERFLOW)?;
        proof {
            assert(words <= source.experts * words) by (nonlinear_arith)
                requires
                    source.experts >= 1,
                    words >= 0,
            ;
        }
        let scratch_bytes = if fused_silu {
            Some(padded(words * 4))
        } else {
            None
        };
        Ok(
            RepackPlan {
                q_bytes,
                z_bytes,
                s_bytes,
                scratch_bytes,
                mapped,
                qweight: source.qweight.address,
                qzeros: source.qzeros.address,
                scales: source.scales.address,
                k: source.in_dim,
                n: source.out_dim,
                experts: source.experts,
                fused_silu,
            },
        )
    }

    /// The copy, once its allocations exist.
    pub fn from_repack(plan: &RepackPlan, q: CudaBuffer, z: CudaBuffer, s: CudaBuffer) -> (weights:
        Self)
        ensures
            weights == (Weights {
                q,
                z,
                s,
                k: plan.k,
                n: plan.n,
                experts: plan.experts,
                fused_silu: plan.fused_silu,
            }),
    {
        Weights {
            q,
            z,
            s,
            k: plan.k,
            n: plan.n,
            experts: plan.experts,
            fused_silu: plan.fused_silu,
        }
    }
}

/// The sizes of a workspace, and the numbers that its launches take.
#[derive(Clone, Copy, Debug, PartialEq, Eq, Structural)]
pub struct WorkspaceLayout {
    pub ids: usize,
    pub experts: usize,
    pub count: usize,
    pub route_counts: usize,
    pub route_offsets: usize,
    pub temporary: usize,
    pub locks: usize,
    pub max_rows: usize,
    pub max_experts: usize,
    pub blocks: usize,
    pub tile_m: usize,
    pub use_f16: bool,
    pub variant: i32,
}

/// The tile variant that the value of `APXINF_QWEN3MOE_MARLIN_TUNE` asks for.
pub open spec fn asked_variant(tune: Option<&str>) -> i32 {
    match tune {
        Some(text) => if text@ == "n128"@ {
            1
        } else if text@ == "n256"@ {
            2
        } else if text@ == "constants"@ {
            3
        } else {
            0
        },
        None => 0,
    }
}

fn variant_of(tune: Option<&str>) -> (variant: i32)
    ensures
        variant == asked_variant(tune),
{
    match tune {
        Some(text) => {
            let word = chars_of(text);
            if same(&word, "n128") {
                1
            } else if same(&word, "n256") {
                2
            } else if same(&word, "constants") {
                3
            } else {
                0
            }
        },
        None => 0,
    }
}

pub const CONSTANT_TILE: &'static str = "Marlin: constant AWQ options require tile size 64";

pub const TUNED_F16: &'static str = "Marlin: tuned tiles require FP16 compute";

pub const CAPACITY: &'static str = "Marlin: invalid workspace capacity or tile size";

pub const TOO_LARGE: &'static str = "Marlin: schedule too large";

pub open spec fn chosen_tile(variant: i32, tile_m: usize) -> usize {
    if variant == 1 || variant == 2 {
        32
    } else {
        tile_m
    }
}

pub open spec fn blocks_per_multiprocessor(variant: i32) -> int {
    if variant == 1 {
        6
    } else if variant == 2 {
        3
    } else {
        2
    }
}

pub open spec fn layout_problem(
    max_rows: usize,
    max_experts: usize,
    tile_m: usize,
    use_f16: bool,
    variant: i32,
) -> Option<Error> {
    let tile = chosen_tile(variant, tile_m);
    if variant == 3 && tile != 64 {
        Some(Error::Other(CONSTANT_TILE))
    } else if variant > 0 && !use_f16 {
        Some(Error::Other(TUNED_F16))
    } else if max_rows == 0 || max_experts == 0 || (tile != 32 && tile != 64) {
        Some(Error::Other(CAPACITY))
    } else if max_rows + max_experts * tile > usize::MAX {
        Some(Error::Other(OVERFLOW))
    } else if max_rows + max_experts * tile > NATIVE_MAX {
        Some(Error::Other(TOO_LARGE))
    } else {
        None
    }
}

pub open spec fn round_up_div(n: int, d: int) -> int {
    (n + d - 1) / d
}

pub open spec fn workspace_layout(
    multiprocessors: u32,
    max_rows: usize,
    max_experts: usize,
    tile_m: usize,
    use_f16: bool,
    variant: i32,
) -> WorkspaceLayout {
    let tile = chosen_tile(variant, tile_m);
    let slots = max_rows + max_experts * tile;
    let blocks = multiprocessors * blocks_per_multiprocessor(variant);
    WorkspaceLayout {
        ids: at_least_16(slots * 4) as usize,
        experts: at_least_16(round_up_div(slots, tile as int) * 4) as usize,
        count: 16,
        route_counts: at_least_16(max_experts * 4) as usize,
        route_offsets: at_least_16((max_experts + 1) * 4) as usize,
        temporary: at_least_16(blocks * 2 * 32 * 256 * 4) as usize,
        locks: at_least_16(blocks * 2 * 4) as usize,
        max_rows,
        max_experts,
        blocks: blocks as usize,
        tile_m: tile,
        use_f16,
        variant,
    }
}

impl WorkspaceLayout {
    /// What every layout that was planned satisfies: a schedule of its capacity
    /// fits its buffers.
    pub open spec fn wf(self) -> bool {
        &&& self.tile_m == 32 || self.tile_m == 64
        &&& self.max_rows >= 1 && self.max_experts >= 1
        &&& self.max_rows + self.max_experts * self.tile_m <= NATIVE_MAX
        &&& (self.max_rows + self.max_experts * self.tile_m) * 4 <= self.ids
        &&& round_up_div(
            self.max_rows + self.max_experts * self.tile_m,
            self.tile_m as int,
        ) * 4 <= self.experts
        &&& self.count >= 4
        &&& self.max_experts * 4 <= self.route_counts
        &&& (self.max_experts + 1) * 4 <= self.route_offsets
    }

    /// Plan a workspace for up to `max_rows` routed rows and `max_experts`
    /// experts. `tune` is the value of `APXINF_QWEN3MOE_MARLIN_TUNE`.
    pub fn new(
        ctx: &CudaContext,
        max_rows: usize,
        max_experts: usize,
        tile_m: usize,
        use_f16: bool,
        tune: Option<&str>,
    ) -> (result: Result<Self, Error>)
        requires
            host_is_64_bit(),
        ensures
            result == unless(
                layout_problem(max_rows, max_experts, tile_m, use_f16, asked_variant(tune)),
                workspace_layout(
                    ctx.caps.multiprocessor_count,
                    max_rows,
                    max_experts,
                    tile_m,
                    use_f16,
                    asked_variant(tune),
                ),
            ),
            result matches Ok(layout) ==> layout.wf(),
    {
        let variant: i32 = variant_of(tune);
        let tile: usize = if variant == 1 || variant == 2 {
            32
        } else {
            tile_m
        };
        if variant == 3 && tile != 64 {
            return Err(Error::Other(CONSTANT_TILE));
        }
        if variant > 0 && !use_f16 {
            return Err(Error::Other(TUNED_F16));
        }
        if max_rows == 0 || max_experts == 0 || (tile != 32 && tile != 64) {
            return Err(Error::Other(CAPACITY));
        }
        let padding: usize = match max_experts.checked_mul(tile) {
            Some(padding) => padding,
            None => {
                return Err(Error::Other(OVERFLOW));
            },
        };
        let slots: usize = match max_rows.checked_add(padding) {
            Some(slots) => slots,
            None => {
                return Err(Error::Other(OVERFLOW));
            },
        };
        if slots > NATIVE_MAX {
            return Err(Error::Other(TOO_LARGE));
        }
        let factor: usize = if variant == 1 {
            6
        } else if variant == 2 {
            3
        } else {
            2
        };
        proof {
            assert(max_experts <= max_experts * tile) by (nonlinear_arith)
                requires
                    tile >= 1,
                    max_experts >= 0,
            ;
            assert(ctx.caps.multiprocessor_count * factor <= 0xffff_ffff * 6) by (nonlinear_arith)
                requires
                    ctx.caps.multiprocessor_count <= 0xffff_ffff,
                    factor <= 6,
            ;
        }
        let blocks: usize = ctx.caps.multiprocessor_count as usize * factor;
        Ok(
            WorkspaceLayout {
                ids: padded(slots * 4),
                experts: padded((slots + tile - 1) / tile * 4),
                count: padded(4),
                route_counts: padded(max_experts * 4),
                route_offsets: padded((max_experts + 1) * 4),
                temporary: padded(blocks * 2 * 32 * 256 * 4),
                locks: padded(blocks * 2 * 4),
                max_rows,
                max_experts,
                blocks,
                tile_m: tile,
                use_f16,
                variant,
            },
        )
    }
}

/// Fixed scratch and bounded routing metadata; no allocation in a GEMM launch.
#[derive(Clone, Copy, Debug, PartialEq, Eq, Structural)]
pub struct Workspace {
    pub layout: WorkspaceLayout,
    pub ids: CudaBuffer,
    pub experts: CudaBuffer,
    pub count: CudaBuffer,
    pub route_counts: CudaBuffer,
    pub route_offsets: CudaBuffer,
    pub temporary: CudaBuffer,
    pub locks: CudaBuffer,
}

/// Rows that were routed to experts in a workspace.
#[derive(Clone, Copy, Debug, PartialEq, Eq, Structural)]
pub struct Rows {
    pub workspace: Workspace,
    pub rows: usize,
    pub experts: usize,
}

/// `apxinf_moe_permute_marlin`.
#[derive(Clone, Copy, Debug, PartialEq, Eq, Structural)]
pub struct PermuteLaunch {
    pub ids: usize,
    pub route_counts: usize,
    pub route_offsets: usize,
    pub sorted: usize,
    pub expert_tiles: usize,
    pub count: usize,
    pub slots: i32,
    pub experts: i32,
    pub tile_m: i32,
}

pub const ROUTING: &'static str = "Marlin routing";

pub const ROUTING_GEOMETRY: &'static str = "Marlin: invalid routing geometry";

pub const SCHEDULE_OFFSETS: &'static str = "Marlin: invalid expert offsets";

pub const SCHEDULE_ROWS: &'static str = "Marlin: row count exceeds workspace";

/// The row of each place of a tile: the tile's rows, then the number of rows
/// as a mark for padding.
pub open spec fn tile_ids(tile: Tile, tile_m: int, rows: int) -> Seq<i32> {
    Seq::new(
        tile_m as nat,
        |j: int|
            if tile.row + j < tile.end {
                (tile.row + j) as i32
            } else {
                rows as i32
            },
    )
}

pub open spec fn schedule_ids(tiles: Seq<Tile>, tile_m: int, rows: int) -> Seq<i32>
    decreases tiles.len(),
{
    if tiles.len() == 0 {
        Seq::empty()
    } else {
        schedule_ids(tiles.drop_last(), tile_m, rows) + tile_ids(tiles.last(), tile_m, rows)
    }
}

pub open spec fn schedule_experts(tiles: Seq<Tile>) -> Seq<i32> {
    tiles.map_values(|tile: Tile| tile.expert as i32)
}

pub proof fn lemma_schedule_len(tiles: Seq<Tile>, tile_m: int, rows: int)
    requires
        tile_m >= 0,
    ensures
        schedule_ids(tiles, tile_m, rows).len() == tiles.len() * tile_m,
    decreases tiles.len(),
{
    if tiles.len() > 0 {
        lemma_schedule_len(tiles.drop_last(), tile_m, rows);
        let n = tiles.len() as int;
        assert(n * tile_m == (n - 1) * tile_m + tile_m) by (nonlinear_arith);
    } else {
        assert(0 * tile_m == 0) by (nonlinear_arith);
    }
}

/// The place of a tile in the ids.
pub proof fn lemma_schedule_place(tiles: Seq<Tile>, tile_m: int, rows: int, t: int, j: int)
    requires
        tile_m > 0,
        0 <= t < tiles.len(),
        0 <= j < tile_m,
    ensures
        0 <= t * tile_m + j < schedule_ids(tiles, tile_m, rows).len(),
        schedule_ids(tiles, tile_m, rows)[t * tile_m + j] == tile_ids(tiles[t], tile_m, rows)[j],
    decreases tiles.len(),
{
    let n = tiles.len() as int;
    let before = tiles.drop_last();
    lemma_schedule_len(before, tile_m, rows);
    lemma_schedule_len(tiles, tile_m, rows);
    assert(t * tile_m + j < n * tile_m) by (nonlinear_arith)
        requires
            t < n,
            j < tile_m,
            tile_m > 0,
    ;
    assert(t * tile_m >= 0) by (nonlinear_arith)
        requires
            t >= 0,
            tile_m > 0,
    ;
    if t < n - 1 {
        lemma_schedule_place(before, tile_m, rows, t, j);
        assert(before[t] == tiles[t]);
    } else {
        assert(t * tile_m == (n - 1) * tile_m);
    }
}

/// Every routed row has a place in the ids, in a tile of its expert.
pub proof fn lemma_schedule_places_every_row(
    offsets: Seq<usize>,
    tile_m: int,
    expert: int,
    row: int,
)
    requires
        are_offsets(offsets),
        tile_m > 0,
        0 <= expert < offsets.len() - 1,
        offsets[expert] <= row < offsets[expert + 1],
    ensures
        exists|t: int, j: int|
            0 <= t < all_tiles(offsets, tile_m).len() && 0 <= j < tile_m && #[trigger] all_tiles(
                offsets,
                tile_m,
            )[t].expert == expert && #[trigger] schedule_ids(
                all_tiles(offsets, tile_m),
                tile_m,
                offsets.last() as int,
            )[t * tile_m + j] == row as i32,
{
    let tiles = all_tiles(offsets, tile_m);
    super::tiles::lemma_tiles_cover(offsets, tile_m, expert, row);
    let t = choose|t: int|
        0 <= t < tiles.len() && super::tiles::covers(#[trigger] tiles[t], tile_m, expert, row);
    let j = row - tiles[t].row;
    lemma_schedule_place(tiles, tile_m, offsets.last() as int, t, j);
    lemma_tile_bounds(offsets, tile_m, t);
    assert(tile_ids(tiles[t], tile_m, offsets.last() as int)[j] == row as i32);
    assert(tiles[t].expert == expert && schedule_ids(
        tiles,
        tile_m,
        offsets.last() as int,
    )[t * tile_m + j] == row as i32);
}

/// The numbers that a host schedule copies to the device.
#[derive(Debug)]
pub struct HostSchedule {
    /// The workspace's ids.
    pub ids: Vec<i32>,
    /// The expert of each tile.
    pub experts: Vec<i32>,
    /// How many ids there are.
    pub count: i32,
}

pub open spec fn schedule_problem(layout: WorkspaceLayout, offsets: Seq<usize>) -> Option<Error> {
    if offsets.len() - 1 > layout.max_experts || !are_offsets(offsets) {
        Some(Error::Other(SCHEDULE_OFFSETS))
    } else if offsets.last() == 0 || offsets.last() > layout.max_rows {
        Some(Error::Other(SCHEDULE_ROWS))
    } else {
        None
    }
}

/// A schedule within a workspace's capacity fits its buffers.
pub proof fn lemma_schedule_fits(layout: WorkspaceLayout, offsets: Seq<usize>)
    requires
        layout.wf(),
        schedule_problem(layout, offsets) is None,
    ensures
        ({
            let tiles = all_tiles(offsets, layout.tile_m as int);
            &&& tiles.len() * layout.tile_m <= layout.max_rows + layout.max_experts * layout.tile_m
            &&& tiles.len() * layout.tile_m * 4 <= layout.ids
            &&& tiles.len() * 4 <= layout.experts
        }),
{
    let step = layout.tile_m as int;
    let tiles = all_tiles(offsets, step);
    let experts = offsets.len() - 1;
    lemma_tile_count(offsets, step);
    assert(experts * (step - 1) <= layout.max_experts * step) by (nonlinear_arith)
        requires
            0 <= experts <= layout.max_experts,
            step >= 1,
    ;
    let slots = layout.max_rows + layout.max_experts * layout.tile_m;
    let n = tiles.len() as int;
    assert(n <= (slots + step - 1) / step) by (nonlinear_arith)
        requires
            n * step <= slots,
            step >= 1,
    ;
}

impl Workspace {
    pub open spec fn wf(self) -> bool {
        &&& self.layout.wf()
        &&& self.ids.len == self.layout.ids
        &&& self.experts.len == self.layout.experts
        &&& self.count.len == self.layout.count
        &&& self.route_counts.len == self.layout.route_counts
        &&& self.route_offsets.len == self.layout.route_offsets
    }

    /// The sum of the workspace's allocations.
    pub open spec fn total(self) -> int {
        self.ids.len + self.experts.len + self.count.len + self.route_counts.len
            + self.route_offsets.len + self.temporary.len + self.locks.len
    }

    /// Allocated routing, split-reduction, and lock storage (excluding weights).
    pub fn bytes(&self) -> (bytes: usize)
        requires
            self.total() <= usize::MAX,
        ensures
            bytes == self.total(),
    {
        self.ids.len + self.experts.len + self.count.len + self.route_counts.len
            + self.route_offsets.len + self.temporary.len + self.locks.len
    }

    /// A workspace in allocations of the planned sizes.
    pub fn new(
        layout: WorkspaceLayout,
        ids: CudaBuffer,
        experts: CudaBuffer,
        count: CudaBuffer,
        route_counts: CudaBuffer,
        route_offsets: CudaBuffer,
        temporary: CudaBuffer,
        locks: CudaBuffer,
    ) -> (workspace: Self)
        ensures
            workspace == (Workspace {
                layout,
                ids,
                experts,
                count,
                route_counts,
                route_offsets,
                temporary,
                locks,
            }),
    {
        Workspace { layout, ids, experts, count, route_counts, route_offsets, temporary, locks }
    }

    pub open spec fn permute_problem(
        self,
        device: usize,
        ids: CudaBuffer,
        slots: usize,
        experts: usize,
    ) -> Option<Error> {
        let padded_slots = slots + experts * self.layout.tile_m;
        if slots == 0 || slots > self.layout.max_rows || experts == 0 || experts > 128 || experts
            > self.layout.max_experts {
            Some(Error::Other(ROUTING_GEOMETRY))
        } else {
            first_of(
                buffer_problem(device, ROUTING, "ids", ids, slots * 4),
                first_of(
                    buffer_problem(device, ROUTING, "counts", self.route_counts, experts * 4),
                    first_of(
                        buffer_problem(
                            device,
                            ROUTING,
                            "offsets",
                            self.route_offsets,
                            (experts + 1) * 4,
                        ),
                        first_of(
                            buffer_problem(device, ROUTING, "sorted", self.ids, padded_slots * 4),
                            first_of(
                                buffer_problem(
                                    device,
                                    ROUTING,
                                    "expert tiles",
                                    self.experts,
                                    round_up_div(padded_slots, self.layout.tile_m as int) * 4,
                                ),
                                buffer_problem(device, ROUTING, "padded count", self.count, 4),
                            ),
                        ),
                    ),
                ),
            )
        }
    }

    /// A workspace on the context's device holds every routing of its geometry:
    /// nothing but the ids can be too short.
    pub proof fn lemma_routing_fits(
        self,
        device: usize,
        ids: CudaBuffer,
        slots: usize,
        experts: usize,
    )
        requires
            self.wf(),
            self.ids.device == device,
            self.experts.device == device,
            self.count.device == device,
            self.route_counts.device == device,
            self.route_offsets.device == device,
            1 <= slots <= self.layout.max_rows,
            1 <= experts <= 128,
            experts <= self.layout.max_experts,
        ensures
            self.permute_problem(device, ids, slots, experts) == buffer_problem(
                device,
                ROUTING,
                "ids",
                ids,
                slots * 4,
            ),
    {
        let step = self.layout.tile_m as int;
        let padded = slots + experts * step;
        let capacity = self.layout.max_rows + self.layout.max_experts * step;
        assert(experts * step <= self.layout.max_experts * step) by (nonlinear_arith)
            requires
                experts <= self.layout.max_experts,
                step >= 1,
        ;
        vstd::arithmetic::div_mod::lemma_div_is_ordered(
            padded + step - 1,
            capacity + step - 1,
            step,
        );
    }

    /// Produce stable expert routing directly on the device. IDs come from
    /// `router_topk_into`. Invalid expert IDs are omitted without writing
    /// beyond workspace bounds.
    pub fn permute(&self, ctx: &CudaContext, ids: &CudaBuffer, slots: usize, experts: usize) -> (
        result: Result<(Rows, PermuteLaunch), Error>)
        requires
            self.layout.wf(),
            host_is_64_bit(),
        ensures
            result == unless(
                self.permute_problem(ctx.device_id, *ids, slots, experts),
                (
                    Rows { workspace: *self, rows: slots, experts },
                    PermuteLaunch {
                        ids: ids.address,
                        route_counts: self.route_counts.address,
                        route_offsets: self.route_offsets.address,
                        sorted: self.ids.address,
                        expert_tiles: self.experts.address,
                        count: self.count.address,
                        slots: slots as i32,
                        experts: experts as i32,
                        tile_m: self.layout.tile_m as i32,
                    },
                ),
            ),
    {
        let tile: usize = self.layout.tile_m;
        if slots == 0 || slots > self.layout.max_rows || experts == 0 || experts > 128 || experts
            > self.layout.max_experts {
            return Err(Error::Other(ROUTING_GEOMETRY));
        }
        proof {
            assert(experts * tile <= self.layout.max_experts * tile) by (nonlinear_arith)
                requires
                    experts <= self.layout.max_experts,
                    tile >= 0,
            ;
        }
        let padded_slots: usize = slots + experts * tile;
        require_buffer(ctx, ROUTING, "ids", ids, slots * 4)?;
        require_buffer(ctx, ROUTING, "counts", &self.route_counts, experts * 4)?;
        require_buffer(ctx, ROUTING, "offsets", &self.route_offsets, (experts + 1) * 4)?;
        require_buffer(ctx, ROUTING, "sorted", &self.ids, padded_slots * 4)?;
        require_buffer(
            ctx,
            ROUTING,
            "expert tiles",
            &self.experts,
            (padded_slots + tile - 1) / tile * 4,
        )?;
        require_buffer(ctx, ROUTING, "padded count", &self.count, 4)?;
        Ok(
            (
                Rows { workspace: *self, rows: slots, experts },
                PermuteLaunch {
                    ids: ids.address,
                    route_counts: self.route_counts.address,
                    route_offsets: self.route_offsets.address,
                    sorted: self.ids.address,
                    expert_tiles: self.experts.address,
                    count: self.count.address,
                    slots: slots as i32,
                    experts: experts as i32,
                    tile_m: tile as i32,
                },
            ),
        )
    }

    /// A schedule made on the host, and what it copies into the workspace.
    pub fn schedule(&self, offsets: &[usize]) -> (result: Result<(Rows, HostSchedule), Error>)
        requires
            self.wf(),
            host_is_64_bit(),
        ensures
            match schedule_problem(self.layout, offsets@) {
                Some(error) => result == Err::<(Rows, HostSchedule), Error>(error),
                None => result matches Ok((routed, schedule)) && {
                    let tiles = all_tiles(offsets@, self.layout.tile_m as int);
                    &&& routed == (Rows {
                        workspace: *self,
                        rows: offsets@.last(),
                        experts: (offsets@.len() - 1) as usize,
                    })
                    &&& schedule.ids@ == schedule_ids(
                        tiles,
                        self.layout.tile_m as int,
                        offsets@.last() as int,
                    )
                    &&& schedule.experts@ == schedule_experts(tiles)
                    &&& schedule.count == schedule.ids@.len()
                    &&& schedule.ids@.len() * 4 <= self.ids.len
                    &&& schedule.experts@.len() * 4 <= self.experts.len
                },
            },
    {
        let tile: usize = self.layout.tile_m;
        if !check_offsets(offsets) || offsets.len() - 1 > self.layout.max_experts {
            return Err(Error::Other(SCHEDULE_OFFSETS));
        }
        let rows: usize = offsets[offsets.len() - 1];
        if rows == 0 || rows > self.layout.max_rows {
            return Err(Error::Other(SCHEDULE_ROWS));
        }
        let tiles = cut(offsets, tile);
        let ghost all = all_tiles(offsets@, tile as int);
        proof {
            lemma_schedule_fits(self.layout, offsets@);
            lemma_schedule_len(all, tile as int, rows as int);
            assert forall|t: int| 0 <= t < all.len() implies (#[trigger] all[t]).end <= rows by {
                lemma_tile_bounds(offsets@, tile as int, t);
            }
        }
        let mut ids: Vec<i32> = Vec::new();
        let mut experts: Vec<i32> = Vec::new();
        let mut t: usize = 0;
        assert(all.take(0) =~= Seq::<Tile>::empty());
        assert(experts@ =~= schedule_experts(all.take(0)));
        while t < tiles.len()
            invariant
                t <= tiles.len(),
                tiles@ == all,
                tile == 32 || tile == 64,
                host_is_64_bit(),
                rows <= NATIVE_MAX,
                forall|t: int| 0 <= t < all.len() ==> (#[trigger] all[t]).end <= rows,
                ids@ == schedule_ids(all.take(t as int), tile as int, rows as int),
                experts@ == schedule_experts(all.take(t as int)),
            decreases tiles.len() - t,
        {
            let current: Tile = tiles[t];
            assert(current == all[t as int]);
            assert(all.take(t + 1).drop_last() =~= all.take(t as int));
            assert(all.take(t + 1).last() == current);
            experts.push(current.expert as i32);
            assert(experts@ =~= schedule_experts(all.take(t + 1)));
            let ghost before = ids@;
            let mut j: usize = 0;
            assert(ids@ =~= before + tile_ids(current, tile as int, rows as int).take(0));
            while j < tile
                invariant
                    j <= tile,
                    tile == 32 || tile == 64,
                    host_is_64_bit(),
                    rows <= NATIVE_MAX,
                    current.end <= rows,
                    ids@ == before + tile_ids(current, tile as int, rows as int).take(j as int),
                decreases tile - j,
            {
                if current.row < current.end && j < current.end - current.row {
                    ids.push((current.row + j) as i32);
                } else {
                    ids.push(rows as i32);
                }
                j = j + 1;
                assert(ids@ =~= before + tile_ids(current, tile as int, rows as int).take(
                    j as int,
                ));
            }
            assert(tile_ids(current, tile as int, rows as int).take(j as int) =~= tile_ids(
                current,
                tile as int,
                rows as int,
            ));
            t = t + 1;
            assert(ids@ =~= schedule_ids(all.take(t as int), tile as int, rows as int));
        }
        assert(all.take(t as int) =~= all);
        let count: i32 = ids.len() as i32;
        Ok(
            (
                Rows { workspace: *self, rows, experts: offsets.len() - 1 },
                HostSchedule { ids, experts, count },
            ),
        )
    }
}

/// `apxinf_marlin_grouped`.
#[derive(Clone, Copy, Debug, PartialEq, Eq, Structural)]
pub struct MarlinLaunch {
    pub x: usize,
    pub q: usize,
    pub z: usize,
    pub s: usize,
    pub ids: usize,
    pub experts: usize,
    pub count: usize,
    pub output: usize,
    pub temporary: usize,
    pub locks: usize,
    pub rows: i32,
    pub n: i32,
    pub k: i32,
    pub blocks: i32,
    pub top_k: i32,
    pub tile_m: i32,
    pub use_f16: i32,
    pub fused_silu: i32,
    pub variant: i32,
}

pub const GROUPED: &'static str = "Marlin grouped GEMM";

pub const TOP_K: &'static str = "Marlin: invalid top-k";

pub const EXPERT_COUNT: &'static str = "Marlin: expert count mismatch";

pub const SILU_TILES: &'static str = "Marlin: SwiGLU epilogue requires the original FP16 tiles";

pub open spec fn output_cols(weight: Weights) -> usize {
    if weight.fused_silu {
        weight.n / 2
    } else {
        weight.n
    }
}

pub open spec fn marlin_problem(
    device: usize,
    x: CudaBuffer,
    weight: Weights,
    rows: Rows,
    output: CudaBuffer,
    top_k: usize,
) -> Option<Error> {
    let ws = rows.workspace;
    if top_k == 0 || top_k > NATIVE_MAX || rows.rows % top_k != 0 {
        Some(Error::Other(TOP_K))
    } else if rows.experts != weight.experts {
        Some(Error::Other(EXPERT_COUNT))
    } else if weight.fused_silu && (!ws.layout.use_f16 || ws.layout.variant != 0) {
        Some(Error::Other(SILU_TILES))
    } else if (rows.rows / top_k) * weight.k * 2 > usize::MAX || rows.rows * output_cols(weight) * 2
        > usize::MAX {
        Some(Error::Other(OVERFLOW))
    } else {
        first_of(
            buffer_problem(device, GROUPED, "input", x, (rows.rows / top_k) * weight.k * 2),
            first_of(
                buffer_problem(
                    device,
                    GROUPED,
                    "output",
                    output,
                    rows.rows * output_cols(weight) * 2,
                ),
                first_of(
                    buffer_problem(device, GROUPED, "weight", weight.q, weight.q.len as int),
                    first_of(
                        buffer_problem(device, GROUPED, "zeros", weight.z, weight.z.len as int),
                        first_of(
                            buffer_problem(device, GROUPED, "scales", weight.s, weight.s.len as int),
                            first_of(
                                buffer_problem(device, GROUPED, "ids", ws.ids, ws.ids.len as int),
                                first_of(
                                    buffer_problem(
                                        device,
                                        GROUPED,
                                        "experts",
                                        ws.experts,
                                        ws.experts.len as int,
                                    ),
                                    first_of(
                                        buffer_problem(device, GROUPED, "count", ws.count, 4),
                                        first_of(
                                            buffer_problem(
                                                device,
                                                GROUPED,
                                                "temporary",
                                                ws.temporary,
                                                ws.temporary.len as int,
                                            ),
                                            buffer_problem(
                                                device,
                                                GROUPED,
                                                "locks",
                                                ws.locks,
                                                ws.locks.len as int,
                                            ),
                                        ),
                                    ),
                                ),
                            ),
                        ),
                    ),
                ),
            ),
        )
    }
}

pub open spec fn flag(value: bool) -> i32 {
    if value {
        1
    } else {
        0
    }
}

fn as_flag(value: bool) -> (result: i32)
    ensures
        result == flag(value),
{
    if value {
        1
    } else {
        0
    }
}

pub open spec fn marlin_launch(
    x: CudaBuffer,
    weight: Weights,
    rows: Rows,
    output: CudaBuffer,
    top_k: usize,
) -> MarlinLaunch {
    let ws = rows.workspace;
    MarlinLaunch {
        x: x.address,
        q: weight.q.address,
        z: weight.z.address,
        s: weight.s.address,
        ids: ws.ids.address,
        experts: ws.experts.address,
        count: ws.count.address,
        output: output.address,
        temporary: ws.temporary.address,
        locks: ws.locks.address,
        rows: (rows.rows / top_k) as i32,
        n: weight.n as i32,
        k: weight.k as i32,
        blocks: ws.layout.blocks as i32,
        top_k: top_k as i32,
        tile_m: ws.layout.tile_m as i32,
        use_f16: flag(ws.layout.use_f16),
        fused_silu: flag(weight.fused_silu),
        variant: ws.layout.variant,
    }
}

pub fn grouped_into(
    ctx: &CudaContext,
    x: &CudaBuffer,
    weight: &Weights,
    rows: &Rows,
    output: &CudaBuffer,
) -> (result: Result<MarlinLaunch, Error>)
    ensures
        result == unless(
            marlin_problem(ctx.device_id, *x, *weight, *rows, *output, 1),
            marlin_launch(*x, *weight, *rows, *output, 1),
        ),
{
    indexed_into(ctx, x, weight, rows, output, 1)
}

/// Read each token once logically, expanding its routed slots through indexed
/// A loads.
pub fn indexed_into(
    ctx: &CudaContext,
    x: &CudaBuffer,
    weight: &Weights,
    rows: &Rows,
    output: &CudaBuffer,
    top_k: usize,
) -> (result: Result<MarlinLaunch, Error>)
    ensures
        result == unless(
            marlin_problem(ctx.device_id, *x, *weight, *rows, *output, top_k),
            marlin_launch(*x, *weight, *rows, *output, top_k),
        ),
{
    if top_k == 0 || top_k > NATIVE_MAX || rows.rows % top_k != 0 {
        return Err(Error::Other(TOP_K));
    }
    if rows.experts != weight.experts {
        return Err(Error::Other(EXPERT_COUNT));
    }
    let ws: Workspace = rows.workspace;
    if weight.fused_silu && (!ws.layout.use_f16 || ws.layout.variant != 0) {
        return Err(Error::Other(SILU_TILES));
    }
    let cols: usize = if weight.fused_silu {
        weight.n / 2
    } else {
        weight.n
    };
    let input_bytes: usize = checked_matrix_bytes(rows.rows / top_k, weight.k, 2, OVERFLOW)?;
    let output_bytes: usize = checked_matrix_bytes(rows.rows, cols, 2, OVERFLOW)?;
    require_buffer(ctx, GROUPED, "input", x, input_bytes)?;
    require_buffer(ctx, GROUPED, "output", output, output_bytes)?;
    require_buffer(ctx, GROUPED, "weight", &weight.q, weight.q.len)?;
    require_buffer(ctx, GROUPED, "zeros", &weight.z, weight.z.len)?;
    require_buffer(ctx, GROUPED, "scales", &weight.s, weight.s.len)?;
    require_buffer(ctx, GROUPED, "ids", &ws.ids, ws.ids.len)?;
    require_buffer(ctx, GROUPED, "experts", &ws.experts, ws.experts.len)?;
    require_buffer(ctx, GROUPED, "count", &ws.count, 4)?;
    require_buffer(ctx, GROUPED, "temporary", &ws.temporary, ws.temporary.len)?;
    require_buffer(ctx, GROUPED, "locks", &ws.locks, ws.locks.len)?;
    Ok(
        MarlinLaunch {
            x: x.address,
            q: weight.q.address,
            z: weight.z.address,
            s: weight.s.address,
            ids: ws.ids.address,
            experts: ws.experts.address,
            count: ws.count.address,
            output: output.address,
            temporary: ws.temporary.address,
            locks: ws.locks.address,
            rows: (rows.rows / top_k) as i32,
            n: weight.n as i32,
            k: weight.k as i32,
            blocks: ws.layout.blocks as i32,
            top_k: top_k as i32,
            tile_m: ws.layout.tile_m as i32,
            use_f16: as_flag(ws.layout.use_f16),
            fused_silu: as_flag(weight.fused_silu),
            variant: ws.layout.variant,
        },
    )
}

} // verus!
