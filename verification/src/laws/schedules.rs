//! Grouped products over routed rows: their weights, workspaces and schedules.

use super::memory::has_room;
use crate::context::CudaContext;
use crate::error::Error;
use crate::kernels::gemm::tiles::{
    all_tiles, are_offsets, covers, lemma_tile_bounds, lemma_tiles_are_disjoint, lemma_tiles_cover,
    Tile,
};
use crate::kernels::gemm::w4a16::{flattened, lemma_flattened_len, AwqWeightView, GroupedRows};
use crate::kernels::gemm::w4a16_marlin::{
    grouped_into, indexed_into, lemma_schedule_len, lemma_schedule_place, tile_ids, HostSchedule,
    MarlinLaunch, PermuteLaunch, RepackPlan, Rows, Weights, Workspace, WorkspaceLayout,
};
use crate::types::CudaBuffer;
use vstd::prelude::*;

verus! {

/// Numbers of a tile in a flat schedule: three for each tile.
proof fn lemma_flattened_place(tiles: Seq<Tile>, t: int)
    requires
        0 <= t < tiles.len(),
    ensures
        flattened(tiles).len() == 3 * tiles.len(),
        flattened(tiles)[3 * t] == tiles[t].expert as i32,
        flattened(tiles)[3 * t + 1] == tiles[t].row as i32,
        flattened(tiles)[3 * t + 2] == tiles[t].end as i32,
    decreases tiles.len(),
{
    let before = tiles.drop_last();
    lemma_flattened_len(tiles);
    lemma_flattened_len(before);
    if t < tiles.len() - 1 {
        lemma_flattened_place(before, t);
        assert(before[t] == tiles[t]);
    }
}

/// A host schedule names, for every row of every expert, that expert in a tile of 64 rows
/// that holds the row, and no second tile that holds it. The numbers are those that the
/// device reads as `(expert, row, end)`.
pub proof fn lemma_grouped_schedule_places_every_row(
    ctx: CudaContext,
    offsets: &[usize],
    tiles: CudaBuffer,
    result: Result<(GroupedRows, Vec<i32>), Error>,
    expert: int,
    r: int,
)
    requires
        call_ensures(GroupedRows::new, (&ctx, offsets, &tiles), result),
        0 <= expert < offsets@.len() - 1,
        offsets@[expert] <= r < offsets@[expert + 1],
        offsets@.len() <= i32::MAX,
    ensures
        result matches Ok((schedule, values)) ==> {
            &&& schedule.tiles == tiles && schedule.rows == offsets@.last()
            &&& schedule.experts == offsets@.len() - 1
            &&& values@.len() == 3 * schedule.count
            &&& has_room(tiles, ctx.device_id, schedule.count as int, 12)
            &&& exists|t: int|
                0 <= t < schedule.count && #[trigger] places(values@, t, 64, r) && values@[3 * t]
                    == expert
            &&& forall|t: int, u: int|
                0 <= t < u < schedule.count && #[trigger] places(values@, t, 64, r)
                    ==> !#[trigger] places(values@, u, 64, r)
        },
        result is Ok ==> {
            &&& offsets@[0] == 0
            &&& forall|i: int, j: int|
                0 <= i <= j < offsets@.len() ==> offsets@[i] <= offsets@[j]
        },
{
    if let Ok((schedule, values)) = result {
        let all = all_tiles(offsets@, 64);
        lemma_tiles_cover(offsets@, 64, expert, r);
        let t = choose|t: int| 0 <= t < all.len() && covers(#[trigger] all[t], 64, expert, r);
        assert forall|u: int| 0 <= u < all.len() implies #[trigger] places(values@, u, 64, r) == (
        all[u].row <= r < all[u].row + 64 && r < all[u].end) by {
            lemma_flattened_place(all, u);
            lemma_tile_bounds(offsets@, 64, u);
        }
        lemma_flattened_len(all);
        lemma_flattened_place(all, t);
        lemma_tile_bounds(offsets@, 64, t);
        assert(places(values@, t, 64, r));
        assert(values@[3 * t] == expert);
        assert forall|t: int, u: int|
            0 <= t < u < schedule.count && #[trigger] places(values@, t, 64, r) implies !(
        #[trigger] places(values@, u, 64, r)) by {
            lemma_tiles_are_disjoint(offsets@, 64, t, u);
            lemma_tile_bounds(offsets@, 64, t);
            lemma_tile_bounds(offsets@, 64, u);
            lemma_flattened_place(all, t);
            lemma_flattened_place(all, u);
        }
    }
}

/// Whether tile `t` of a flat schedule holds row `r`.
pub open spec fn places(values: Seq<i32>, t: int, step: int, r: int) -> bool {
    values[3 * t + 1] <= r < values[3 * t + 1] + step && r < values[3 * t + 2]
}

/// A schedule of a workspace has, for every row of every expert, exactly one place, in a tile
/// of that expert. A place without a row holds the number of rows.
pub proof fn lemma_host_schedule_places_every_row_once(
    workspace: Workspace,
    offsets: &[usize],
    result: Result<(Rows, HostSchedule), Error>,
    expert: int,
    r: int,
)
    requires
        call_ensures(Workspace::schedule, (&workspace, offsets), result),
        workspace.wf(),
        0 <= expert < offsets@.len() - 1,
        offsets@[expert] <= r < offsets@[expert + 1],
    ensures
        result matches Ok((routed, schedule)) ==> {
            let step = workspace.layout.tile_m as int;
            &&& routed.workspace == workspace && routed.rows == offsets@.last()
            &&& routed.experts == offsets@.len() - 1
            &&& schedule.ids@.len() == step * schedule.experts@.len()
            &&& schedule.count == schedule.ids@.len()
            &&& exists|p: int|
                0 <= p < schedule.ids@.len() && #[trigger] schedule.ids@[p] == r
                    && schedule.experts@[p / step] == expert
            &&& forall|p: int, q: int|
                0 <= p < q < schedule.ids@.len() && #[trigger] schedule.ids@[p] == r
                    ==> #[trigger] schedule.ids@[q] != r
            &&& forall|p: int|
                0 <= p < schedule.ids@.len() ==> 0 <= #[trigger] schedule.ids@[p] <= routed.rows
        },
{
    if let Ok((routed, schedule)) = result {
        let step = workspace.layout.tile_m as int;
        let all = all_tiles(offsets@, step);
        let rows = offsets@.last() as int;
        let ids = schedule.ids@;
        lemma_schedule_len(all, step, rows);
        assert(all.len() * step == step * all.len()) by (nonlinear_arith);
        lemma_tiles_cover(offsets@, step, expert, r);
        let t = choose|t: int| 0 <= t < all.len() && covers(#[trigger] all[t], step, expert, r);
        lemma_tile_bounds(offsets@, step, t);
        let j = r - all[t].row;
        lemma_schedule_place(all, step, rows, t, j);
        let place = t * step + j;
        lemma_place_of(t, j, step);
        assert(ids[place] == r);
        assert(schedule.experts@[place / step] == expert);
        assert forall|p: int| 0 <= p < ids.len() implies #[trigger] ids[p] == id_of(
            all,
            step,
            rows,
            p,
        ) && 0 <= ids[p] <= rows by {
            lemma_id(offsets@, step, p);
        }
        assert forall|p: int, q: int| 0 <= p < q < ids.len() && #[trigger] ids[p] == r implies
            #[trigger] ids[q] != r by {
            lemma_id(offsets@, step, p);
            lemma_id(offsets@, step, q);
            let (t, u) = (p / step, q / step);
            lemma_tile_bounds(offsets@, step, t);
            lemma_tile_bounds(offsets@, step, u);
            if t < u {
                lemma_tiles_are_disjoint(offsets@, step, t, u);
            } else {
                lemma_order(p, q, step);
            }
        }
    }
}

/// The row at place `p`, or the number of rows.
spec fn id_of(tiles: Seq<Tile>, step: int, rows: int, p: int) -> int {
    let tile = tiles[p / step];
    if tile.row + p % step < tile.end {
        tile.row + p % step
    } else {
        rows
    }
}

proof fn lemma_place_of(t: int, j: int, step: int)
    requires
        step > 0,
        0 <= j < step,
    ensures
        (t * step + j) / step == t,
        (t * step + j) % step == j,
{
    vstd::arithmetic::div_mod::lemma_fundamental_div_mod_converse(t * step + j, step, t, j);
}

proof fn lemma_order(p: int, q: int, step: int)
    requires
        0 <= p < q,
        step > 0,
    ensures
        p / step <= q / step,
        p / step == q / step ==> p % step < q % step,
{
    vstd::arithmetic::div_mod::lemma_div_is_ordered(p, q, step);
    vstd::arithmetic::div_mod::lemma_fundamental_div_mod(p, step);
    vstd::arithmetic::div_mod::lemma_fundamental_div_mod(q, step);
}

proof fn lemma_id(offsets: Seq<usize>, step: int, p: int)
    requires
        are_offsets(offsets),
        step > 0,
        offsets.last() <= i32::MAX,
        0 <= p < all_tiles(offsets, step).len() * step,
    ensures
        0 <= p / step < all_tiles(offsets, step).len(),
        0 <= p % step < step,
        crate::kernels::gemm::w4a16_marlin::schedule_ids(
            all_tiles(offsets, step),
            step,
            offsets.last() as int,
        )[p] == id_of(all_tiles(offsets, step), step, offsets.last() as int, p),
        0 <= id_of(all_tiles(offsets, step), step, offsets.last() as int, p) <= offsets.last(),
{
    let all = all_tiles(offsets, step);
    let rows = offsets.last() as int;
    let n = all.len() as int;
    let (t, j) = (p / step, p % step);
    vstd::arithmetic::div_mod::lemma_fundamental_div_mod(p, step);
    vstd::arithmetic::div_mod::lemma_mod_bound(p, step);
    assert(step * t == t * step) by (nonlinear_arith);
    assert(0 <= t) by (nonlinear_arith)
        requires
            t * step + j == p,
            0 <= p,
            0 <= j < step,
    ;
    assert(t < n) by (nonlinear_arith)
        requires
            t * step + j == p,
            p < n * step,
            0 <= j < step,
    ;
    lemma_schedule_place(all, step, rows, t, j);
    lemma_tile_bounds(offsets, step, t);
    assert(tile_ids(all[t], step, rows)[j] == id_of(all, step, rows, p));
}

/// A repacked copy has the sizes of the view's planes, expert after expert, and is made from
/// those planes.
pub proof fn lemma_marlin_copy_keeps_its_planes(
    ctx: CudaContext,
    source: AwqWeightView,
    mapped: bool,
    fused: bool,
    plain: Result<RepackPlan, Error>,
    result: Result<RepackPlan, Error>,
    q: CudaBuffer,
    z: CudaBuffer,
    s: CudaBuffer,
    weights: Weights,
)
    requires
        call_ensures(Weights::repack, (&ctx, source, mapped), plain),
        call_ensures(Weights::repack_with_silu, (&ctx, source, mapped, fused), result),
        result matches Ok(plan) ==> call_ensures(Weights::from_repack, (&plan, q, z, s), weights),
        source.fits(),
    ensures
        result matches Ok(plan) ==> {
            let groups = source.in_dim as int / 128;
            &&& 8 * plan.q_bytes == source.experts * (source.in_dim * source.out_dim) * 4
            &&& 8 * plan.z_bytes == source.experts * (groups * source.out_dim) * 4
            &&& plan.s_bytes == source.experts * (groups * source.out_dim) * 2
            &&& plan.qweight == source.qweight.address && plan.qzeros == source.qzeros.address
            &&& plan.scales == source.scales.address
            &&& plan.mapped == mapped && plan.fused_silu == fused
            &&& plan.scratch_bytes is Some <==> fused
            &&& plan.scratch_bytes matches Some(bytes) ==> bytes >= 16 && bytes * 8 >= (
            source.in_dim * source.out_dim) * 4
            &&& weights.q == q && weights.z == z && weights.s == s
            &&& weights.k == source.in_dim && weights.n == source.out_dim
            &&& weights.experts == source.experts && weights.fused_silu == fused
        },
        !fused ==> plain == result,
        plain is Ok <==> result is Ok,
        result is Ok ==> {
            &&& ctx.caps.compute_major >= 8
            &&& source.group_size == 128 && source.in_dim > 128 && source.out_dim % 256 == 0
        },
{
    if let Ok(plan) = result {
        let cols = source.out_dim as int / 8;
        let groups = source.in_dim as int / 128;
        let (e, k, n) = (source.experts as int, source.in_dim as int, source.out_dim as int);
        assert(n == 8 * cols);
        assert(8 * (e * (k * cols) * 4) == e * (k * n) * 4) by (nonlinear_arith)
            requires
                n == 8 * cols,
        ;
        assert(8 * (e * (groups * cols) * 4) == e * (groups * n) * 4) by (nonlinear_arith)
            requires
                n == 8 * cols,
        ;
        assert(8 * (k * cols) == k * n) by (nonlinear_arith)
            requires
                n == 8 * cols,
        ;
        assert(0 <= e * (k * cols) && k * cols <= e * (k * cols)) by (nonlinear_arith)
            requires
                e >= 1,
                k >= 0,
                cols >= 0,
        ;
        assert(0 <= e * (groups * cols)) by (nonlinear_arith)
            requires
                e >= 1,
                groups >= 0,
                cols >= 0,
        ;
        assert(0 <= e * (groups * n)) by (nonlinear_arith)
            requires
                e >= 1,
                groups >= 0,
                n >= 0,
        ;
        assert(0 <= k * cols) by (nonlinear_arith)
            requires
                k >= 0,
                cols >= 0,
        ;
    }
}

/// A planned workspace has room for every schedule of its capacity, one id for every place,
/// one expert for every tile, and for each block a lock and a tile of sums. Tuned tiles have
/// 32 rows and need FP16; the constant ones need 64.
pub proof fn lemma_workspace_has_room(
    ctx: CudaContext,
    max_rows: usize,
    max_experts: usize,
    tile_m: usize,
    use_f16: bool,
    tune: Option<&str>,
    result: Result<WorkspaceLayout, Error>,
)
    requires
        call_ensures(
            WorkspaceLayout::new,
            (&ctx, max_rows, max_experts, tile_m, use_f16, tune),
            result,
        ),
        crate::types::host_is_64_bit(),
    ensures
        result matches Ok(layout) ==> {
            let places = max_rows + max_experts * layout.tile_m;
            let factor = if is_text(tune, seq!['n', '1', '2', '8']) {
                6int
            } else if is_text(tune, seq!['n', '2', '5', '6']) {
                3
            } else {
                2
            };
            &&& layout.ids >= 4 * places && layout.ids <= 4 * places + 16
            &&& layout.experts * layout.tile_m >= 4 * places
            &&& layout.count >= 4
            &&& layout.route_counts >= 4 * max_experts
            &&& layout.route_offsets >= 4 * (max_experts + 1)
            &&& layout.blocks == ctx.caps.multiprocessor_count * factor
            &&& layout.temporary >= 65536 * layout.blocks
            &&& layout.locks >= 8 * layout.blocks
            &&& layout.max_rows == max_rows && layout.max_experts == max_experts
            &&& layout.use_f16 == use_f16
            &&& layout.tile_m == (if factor != 2 {
                32
            } else {
                tile_m
            })
            &&& layout.tile_m == 32 || layout.tile_m == 64
            &&& layout.variant == (if factor == 6 {
                1int
            } else if factor == 3 {
                2
            } else if is_text(tune, seq!['c', 'o', 'n', 's', 't', 'a', 'n', 't', 's']) {
                3
            } else {
                0
            })
            &&& layout.variant != 0 ==> use_f16
            &&& layout.variant == 3 ==> layout.tile_m == 64
        },
{
    reveal_strlit("n128");
    reveal_strlit("n256");
    reveal_strlit("constants");
    assert("n128"@ =~= seq!['n', '1', '2', '8']);
    assert("n256"@ =~= seq!['n', '2', '5', '6']);
    assert("constants"@ =~= seq!['c', 'o', 'n', 's', 't', 'a', 'n', 't', 's']);
    assert(seq!['n', '1', '2', '8'] != seq!['n', '2', '5', '6']) by {
        assert(seq!['n', '1', '2', '8'][1] != seq!['n', '2', '5', '6'][1]);
    }
    assert(seq!['n', '1', '2', '8'].len() != seq![
        'c',
        'o',
        'n',
        's',
        't',
        'a',
        'n',
        't',
        's',
    ].len());
    if let Ok(layout) = result {
        let step = layout.tile_m as int;
        let places = max_rows + max_experts * step;
        let tiles = (places + step - 1) / step;
        assert(tiles * step >= places) by (nonlinear_arith)
            requires
                tiles == (places + step - 1) / step,
                step > 0,
        ;
        let experts = layout.experts as int;
        assert(experts * step >= 4 * places) by (nonlinear_arith)
            requires
                experts >= tiles * 4,
                tiles * step >= places,
                step > 0,
        ;
        assert(max_experts <= max_experts * step) by (nonlinear_arith)
            requires
                step >= 1,
        ;
        let count = ctx.caps.multiprocessor_count as int;
        let factor = crate::kernels::gemm::w4a16_marlin::blocks_per_multiprocessor(layout.variant);
        assert(0 <= count * factor <= 0xffff_ffff * 6) by (nonlinear_arith)
            requires
                0 <= count <= 0xffff_ffff,
                0 <= factor <= 6,
        ;
        assert(layout.blocks == count * factor);
    }
}

/// Whether a variable has the given text.
pub open spec fn is_text(value: Option<&str>, text: Seq<char>) -> bool {
    value matches Some(found) && found@ == text
}

/// Routing on the device sorts the given ids into the workspace's own buffers.
pub proof fn lemma_permute_fills_its_workspace(
    workspace: Workspace,
    ctx: CudaContext,
    ids: CudaBuffer,
    slots: usize,
    experts: usize,
    result: Result<(Rows, PermuteLaunch), Error>,
)
    requires
        call_ensures(Workspace::permute, (&workspace, &ctx, &ids, slots, experts), result),
        workspace.layout.wf(),
    ensures
        result matches Ok((routed, launch)) ==> {
            let step = workspace.layout.tile_m as int;
            let places = slots + experts * step;
            &&& routed.workspace == workspace && routed.rows == slots && routed.experts == experts
            &&& launch.ids == ids.address
            &&& launch.sorted == workspace.ids.address
            &&& launch.expert_tiles == workspace.experts.address
            &&& launch.count == workspace.count.address
            &&& launch.route_counts == workspace.route_counts.address
            &&& launch.route_offsets == workspace.route_offsets.address
            &&& launch.slots == slots && launch.experts == experts && launch.tile_m == step
            &&& has_room(ids, ctx.device_id, slots as int, 4)
            &&& has_room(workspace.ids, ctx.device_id, places, 4)
            &&& workspace.experts.device == ctx.device_id && workspace.experts.len * step >= 4
                * places
            &&& has_room(workspace.count, ctx.device_id, 1, 4)
            &&& has_room(workspace.route_counts, ctx.device_id, experts as int, 4)
            &&& has_room(workspace.route_offsets, ctx.device_id, experts + 1, 4)
        },
        result is Ok ==> 0 < slots <= workspace.layout.max_rows && 0 < experts <= 128 && experts
            <= workspace.layout.max_experts,
{
    if let Ok((routed, launch)) = result {
        let step = workspace.layout.tile_m as int;
        let places = slots + experts * step;
        let tiles = (places + step - 1) / step;
        assert(tiles * step >= places) by (nonlinear_arith)
            requires
                tiles == (places + step - 1) / step,
                step > 0,
        ;
        let bytes = workspace.experts.len as int;
        assert(bytes * step >= 4 * places) by (nonlinear_arith)
            requires
                bytes >= tiles * 4,
                tiles * step >= places,
                step > 0,
        ;
        assert(workspace.layout.max_experts <= workspace.layout.max_experts * step)
            by (nonlinear_arith)
            requires
                step >= 1,
        ;
    }
}

/// A grouped product reads each token once for its `top_k` places, multiplies with the copy's
/// own planes and follows the schedule of the workspace that the rows were routed in.
pub proof fn lemma_marlin_launch_names_its_operands(
    ctx: CudaContext,
    x: CudaBuffer,
    weight: Weights,
    routed: Rows,
    output: CudaBuffer,
    top_k: usize,
    each: Result<MarlinLaunch, Error>,
    plain: Result<MarlinLaunch, Error>,
    result: Result<MarlinLaunch, Error>,
)
    requires
        call_ensures(grouped_into, (&ctx, &x, &weight, &routed, &output), plain),
        call_ensures(indexed_into, (&ctx, &x, &weight, &routed, &output, 1), each),
        call_ensures(indexed_into, (&ctx, &x, &weight, &routed, &output, top_k), result),
        routed.rows <= i32::MAX,
        weight.n <= i32::MAX,
        weight.k <= i32::MAX,
        routed.workspace.layout.blocks <= i32::MAX,
        routed.workspace.layout.tile_m <= i32::MAX,
    ensures
        result matches Ok(launch) ==> {
            let ws = routed.workspace;
            &&& launch.x == x.address && launch.output == output.address
            &&& launch.q == weight.q.address && launch.z == weight.z.address && launch.s
                == weight.s.address
            &&& launch.ids == ws.ids.address && launch.experts == ws.experts.address
            &&& launch.count == ws.count.address
            &&& launch.temporary == ws.temporary.address && launch.locks == ws.locks.address
            &&& launch.rows * launch.top_k == routed.rows && launch.top_k == top_k
            &&& launch.n == weight.n && launch.k == weight.k
            &&& launch.blocks == ws.layout.blocks && launch.tile_m == ws.layout.tile_m
            &&& launch.use_f16 == (if ws.layout.use_f16 {
                1int
            } else {
                0
            })
            &&& launch.fused_silu == (if weight.fused_silu {
                1int
            } else {
                0
            })
            &&& launch.variant == ws.layout.variant
            &&& has_room(x, ctx.device_id, launch.rows * weight.k, 2)
            &&& weight.fused_silu ==> has_room(
                output,
                ctx.device_id,
                routed.rows * (weight.n as int / 2),
                2,
            )
            &&& !weight.fused_silu ==> has_room(output, ctx.device_id, routed.rows * weight.n, 2)
        },
        result is Ok <==> {
            let ws = routed.workspace;
            let cols = if weight.fused_silu {
                weight.n as int / 2
            } else {
                weight.n as int
            };
            let here = ctx.device_id;
            &&& 0 < top_k <= i32::MAX && routed.rows % top_k == 0
            &&& routed.experts == weight.experts
            &&& weight.fused_silu ==> ws.layout.use_f16 && ws.layout.variant == 0
            &&& has_room(x, here, routed.rows as int / top_k as int * weight.k, 2)
            &&& has_room(output, here, routed.rows * cols, 2)
            &&& weight.q.device == here && weight.z.device == here && weight.s.device == here
            &&& ws.ids.device == here && ws.experts.device == here
            &&& has_room(ws.count, here, 1, 4)
            &&& ws.temporary.device == here && ws.locks.device == here
        },
        plain == each,
{
    if top_k > 0 && routed.rows % top_k == 0 {
        let (r, t) = (routed.rows as int, top_k as int);
        vstd::arithmetic::div_mod::lemma_fundamental_div_mod(r, t);
        assert(t * (r / t) == r / t * t) by (nonlinear_arith);
        assert(0 <= r / t <= r) by (nonlinear_arith)
            requires
                0 <= r,
                t > 0,
        ;
    }
}

} // verus!
