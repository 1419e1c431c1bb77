//! Cutting expert-sorted rows into tiles of at most a fixed number of rows.

use vstd::prelude::*;

verus! {

/// Rows `row..row + step`, as far as they are before `end`, of one expert.
#[derive(Clone, Copy, Debug, PartialEq, Eq, Structural)]
pub struct Tile {
    pub expert: usize,
    pub row: usize,
    pub end: usize,
}

/// Offsets that start at zero and never fall: expert `e` owns the rows from
/// `offsets[e]` up to `offsets[e + 1]`.
pub open spec fn are_offsets(offsets: Seq<usize>) -> bool {
    &&& 2 <= offsets.len() <= usize::MAX
    &&& offsets[0] == 0
    &&& forall|i: int, j: int| 0 <= i <= j < offsets.len() ==> offsets[i] <= offsets[j]
}

/// The tiles of one expert's rows.
pub open spec fn expert_tiles(expert: usize, row: int, end: int, step: int) -> Seq<Tile>
    decreases
            if row < end {
                end - row
            } else {
                0
            },
{
    if row >= end || step <= 0 {
        Seq::empty()
    } else {
        seq![Tile { expert, row: row as usize, end: end as usize }] + expert_tiles(
            expert,
            row + step,
            end,
            step,
        )
    }
}

/// The tiles of the first `experts` experts, in order.
pub open spec fn tiles_of(offsets: Seq<usize>, experts: int, step: int) -> Seq<Tile>
    decreases experts,
{
    if experts <= 0 {
        Seq::empty()
    } else {
        tiles_of(offsets, experts - 1, step) + expert_tiles(
            (experts - 1) as usize,
            offsets[experts - 1] as int,
            offsets[experts] as int,
            step,
        )
    }
}

/// All tiles.
pub open spec fn all_tiles(offsets: Seq<usize>, step: int) -> Seq<Tile> {
    tiles_of(offsets, offsets.len() - 1, step)
}

/// The first row behind a tile.
pub open spec fn tile_end(tile: Tile, step: int) -> int {
    if tile.row + step <= tile.end {
        tile.row + step
    } else {
        tile.end as int
    }
}

/// Whether a row of an expert lies in a tile.
pub open spec fn covers(tile: Tile, step: int, expert: int, row: int) -> bool {
    tile.expert == expert && tile.row <= row < tile_end(tile, step)
}

proof fn lemma_expert_tiles(expert: usize, row: int, end: int, step: int)
    requires
        0 <= row <= end <= usize::MAX,
        step > 0,
    ensures
        ({
            let tiles = expert_tiles(expert, row, end, step);
            &&& tiles.len() * step <= end - row + step - 1
            &&& forall|t: int|
                0 <= t < tiles.len() ==> {
                    &&& (#[trigger] tiles[t]).expert == expert
                    &&& tiles[t].end == end
                    &&& tiles[t].row == row + t * step
                    &&& tiles[t].row < end
                }
            &&& row < end ==> tiles.len() >= 1 && row + (tiles.len() - 1) * step < end <= row
                + tiles.len() * step
        }),
    decreases end - row,
{
    let tiles = expert_tiles(expert, row, end, step);
    if row < end {
        let rest = expert_tiles(expert, row + step, end, step);
        if row + step <= end {
            lemma_expert_tiles(expert, row + step, end, step);
        } else {
            assert(rest.len() == 0);
        }
        let n = rest.len() as int;
        assert(tiles.len() == n + 1);
        assert((n + 1) * step == n * step + step) by (nonlinear_arith);
        assert((n - 1) * step == n * step - step) by (nonlinear_arith);
        assert forall|t: int| 0 <= t < tiles.len() implies {
            &&& (#[trigger] tiles[t]).expert == expert
            &&& tiles[t].end == end
            &&& tiles[t].row == row + t * step
            &&& tiles[t].row < end
        } by {
            if t > 0 {
                assert(tiles[t] == rest[t - 1]);
                assert((t - 1) * step == t * step - step) by (nonlinear_arith);
            } else {
                assert(0 * step == 0) by (nonlinear_arith);
            }
        }
        if row + step >= end {
            assert(rest.len() == 0);
            assert(0 * step == 0) by (nonlinear_arith);
            assert(1 * step == step) by (nonlinear_arith);
        }
    } else {
        assert(tiles.len() == 0);
        assert(0 * step == 0) by (nonlinear_arith);
    }
}

proof fn lemma_tiles_of(offsets: Seq<usize>, experts: int, step: int)
    requires
        are_offsets(offsets),
        0 <= experts < offsets.len(),
        step > 0,
    ensures
        ({
            let tiles = tiles_of(offsets, experts, step);
            &&& tiles.len() * step <= offsets[experts] + experts * (step - 1)
            &&& forall|t: int|
                0 <= t < tiles.len() ==> {
                    &&& (#[trigger] tiles[t]).expert < experts
                    &&& tiles[t].end == offsets[tiles[t].expert + 1]
                    &&& offsets[tiles[t].expert as int] <= tiles[t].row < tiles[t].end
                    &&& tiles[t].end <= offsets[experts]
                }
            &&& forall|t: int, u: int|
                0 <= t < u < tiles.len() ==> tile_end(#[trigger] tiles[t], step) <= (
                #[trigger] tiles[u]).row
        }),
    decreases experts,
{
    let tiles = tiles_of(offsets, experts, step);
    if experts > 0 {
        let e = experts - 1;
        lemma_tiles_of(offsets, e, step);
        let before = tiles_of(offsets, e, step);
        let own = expert_tiles(e as usize, offsets[e] as int, offsets[experts] as int, step);
        assert(offsets[e] <= offsets[experts]);
        lemma_expert_tiles(e as usize, offsets[e] as int, offsets[experts] as int, step);
        let (p, q) = (before.len() as int, own.len() as int);
        assert((p + q) * step == p * step + q * step) by (nonlinear_arith);
        assert(experts * (step - 1) == e * (step - 1) + (step - 1)) by (nonlinear_arith)
            requires
                experts == e + 1,
        ;
        assert forall|t: int| 0 <= t < tiles.len() implies {
            &&& (#[trigger] tiles[t]).expert < experts
            &&& tiles[t].end == offsets[tiles[t].expert + 1]
            &&& offsets[tiles[t].expert as int] <= tiles[t].row < tiles[t].end
            &&& tiles[t].end <= offsets[experts]
        } by {
            if t < p {
                assert(tiles[t] == before[t]);
                assert(offsets[e] <= offsets[experts]);
            } else {
                let s = t - p;
                assert(tiles[t] == own[s]);
                assert(s * step >= 0) by (nonlinear_arith)
                    requires
                        s >= 0,
                        step > 0,
                ;
            }
        }
        assert forall|t: int, u: int| 0 <= t < u < tiles.len() implies tile_end(
            #[trigger] tiles[t],
            step,
        ) <= (#[trigger] tiles[u]).row by {
            if u < p {
                assert(tiles[t] == before[t] && tiles[u] == before[u]);
            } else if t < p {
                assert(tiles[t] == before[t] && tiles[u] == own[u - p]);
                let s = u - p;
                assert(s * step >= 0) by (nonlinear_arith)
                    requires
                        s >= 0,
                        step > 0,
                ;
            } else {
                let (a, b) = (t - p, u - p);
                assert(tiles[t] == own[a] && tiles[u] == own[b]);
                assert(a * step + step <= b * step) by (nonlinear_arith)
                    requires
                        a < b,
                        step > 0,
                ;
            }
        }
    } else {
        assert(tiles.len() == 0);
        assert(0 * step == 0) by (nonlinear_arith);
        assert(0 * (step - 1) == 0) by (nonlinear_arith);
    }
}

/// Every row of every expert lies in a tile of that expert.
pub proof fn lemma_tiles_cover(offsets: Seq<usize>, step: int, expert: int, row: int)
    requires
        are_offsets(offsets),
        step > 0,
        0 <= expert < offsets.len() - 1,
        offsets[expert] <= row < offsets[expert + 1],
    ensures
        exists|t: int|
            0 <= t < all_tiles(offsets, step).len() && covers(
                #[trigger] all_tiles(offsets, step)[t],
                step,
                expert,
                row,
            ),
{
    lemma_tiles_cover_of(offsets, offsets.len() - 1, step, expert, row);
    let tiles = tiles_of(offsets, offsets.len() - 1, step);
    let t = choose|t: int|
        0 <= t < tiles.len() && covers(#[trigger] tiles[t], step, expert, row);
    assert(covers(all_tiles(offsets, step)[t], step, expert, row));
}

proof fn lemma_tiles_cover_of(offsets: Seq<usize>, experts: int, step: int, expert: int, row: int)
    requires
        are_offsets(offsets),
        step > 0,
        0 <= expert < experts < offsets.len(),
        offsets[expert] <= row < offsets[expert + 1],
    ensures
        exists|t: int|
            0 <= t < tiles_of(offsets, experts, step).len() && covers(
                #[trigger] tiles_of(offsets, experts, step)[t],
                step,
                expert,
                row,
            ),
    decreases experts,
{
    let tiles = tiles_of(offsets, experts, step);
    let e = experts - 1;
    let before = tiles_of(offsets, e, step);
    let own = expert_tiles(e as usize, offsets[e] as int, offsets[experts] as int, step);
    if expert < e {
        lemma_tiles_cover_of(offsets, e, step, expert, row);
        let t = choose|t: int|
            0 <= t < before.len() && covers(#[trigger] before[t], step, expert, row);
        assert(tiles[t] == before[t]);
    } else {
        let (first, end) = (offsets[e] as int, offsets[experts] as int);
        lemma_expert_tiles(e as usize, first, end, step);
        let s = (row - first) / step;
        vstd::arithmetic::div_mod::lemma_fundamental_div_mod(row - first, step);
        vstd::arithmetic::div_mod::lemma_mod_bound(row - first, step);
        assert(step * s == s * step) by (nonlinear_arith);
        assert((s + 1) * step == s * step + step) by (nonlinear_arith);
        assert(s >= 0) by (nonlinear_arith)
            requires
                (s + 1) * step > row - first,
                row - first >= 0,
                step > 0,
        ;
        assert(s < own.len()) by (nonlinear_arith)
            requires
                s * step <= row - first,
                row < end,
                end <= first + own.len() * step,
                step > 0,
        ;
        assert(own[s].row == first + s * step);
        let t = before.len() + s;
        assert(tiles[t] == own[s]);
    }
}

/// No row lies in two tiles: each tile ends before the next one starts.
pub proof fn lemma_tiles_are_disjoint(offsets: Seq<usize>, step: int, t: int, u: int)
    requires
        are_offsets(offsets),
        step > 0,
        0 <= t < u < all_tiles(offsets, step).len(),
    ensures
        tile_end(all_tiles(offsets, step)[t], step) <= all_tiles(offsets, step)[u].row,
{
    lemma_tiles_of(offsets, offsets.len() - 1, step);
}

/// A tile names its expert and lies in that expert's rows.
pub proof fn lemma_tile_bounds(offsets: Seq<usize>, step: int, t: int)
    requires
        are_offsets(offsets),
        step > 0,
        0 <= t < all_tiles(offsets, step).len(),
    ensures
        ({
            let tile = all_tiles(offsets, step)[t];
            &&& tile.expert < offsets.len() - 1
            &&& offsets[tile.expert as int] <= tile.row < tile.end
            &&& tile.end == offsets[tile.expert + 1]
            &&& tile.end <= offsets.last()
        }),
{
    lemma_tiles_of(offsets, offsets.len() - 1, step);
}

/// The tiles, padded to full size, take no more rows than there are, plus one
/// partial tile for each expert.
pub proof fn lemma_tile_count(offsets: Seq<usize>, step: int)
    requires
        are_offsets(offsets),
        step > 0,
    ensures
        all_tiles(offsets, step).len() * step <= offsets.last() + (offsets.len() - 1) * (step - 1),
{
    lemma_tiles_of(offsets, offsets.len() - 1, step);
}

/// Cut the rows of every expert into tiles.
pub fn cut(offsets: &[usize], step: usize) -> (tiles: Vec<Tile>)
    requires
        are_offsets(offsets@),
        step > 0,
        offsets@.last() + step <= usize::MAX,
    ensures
        tiles@ == all_tiles(offsets@, step as int),
{
    let mut tiles: Vec<Tile> = Vec::new();
    let experts: usize = offsets.len() - 1;
    let mut expert: usize = 0;
    while expert < experts
        invariant
            expert <= experts,
            experts == offsets@.len() - 1,
            are_offsets(offsets@),
            step > 0,
            offsets@.last() + step <= usize::MAX,
            tiles@ == tiles_of(offsets@, expert as int, step as int),
        decreases experts - expert,
    {
        let end: usize = offsets[expert + 1];
        let mut row: usize = offsets[expert];
        let ghost before = tiles@;
        let ghost own = expert_tiles(expert, row as int, end as int, step as int);
        assert(end <= offsets@.last());
        assert(tiles@ + own =~= before + own);
        while row < end
            invariant
                end + step <= usize::MAX,
                step > 0,
                tiles@ + expert_tiles(expert, row as int, end as int, step as int) == before + own,
            decreases
                    if row < end {
                        end - row
                    } else {
                        0
                    },
        {
            let ghost rest = expert_tiles(expert, row as int, end as int, step as int);
            let ghost tail = expert_tiles(expert, row + step, end as int, step as int);
            let ghost pushed = tiles@;
            tiles.push(Tile { expert, row, end });
            proof {
                assert(rest == seq![Tile { expert, row, end }] + tail);
                assert(tiles@ + tail =~= pushed + rest);
            }
            row = row + step;
        }
        assert(expert_tiles(expert, row as int, end as int, step as int) =~= Seq::<Tile>::empty());
        assert(tiles@ =~= before + own);
        expert = expert + 1;
    }
    tiles
}

/// Whether some offsets start at zero and never fall.
pub fn check_offsets(offsets: &[usize]) -> (valid: bool)
    ensures
        valid == are_offsets(offsets@),
{
    if offsets.len() < 2 || offsets[0] != 0 {
        return false;
    }
    let mut i: usize = 1;
    while i < offsets.len()
        invariant
            1 <= i <= offsets@.len(),
            forall|a: int, b: int| 0 <= a <= b < i ==> offsets@[a] <= offsets@[b],
        decreases offsets.len() - i,
    {
        if offsets[i - 1] > offsets[i] {
            assert(offsets@[i - 1] > offsets@[i as int]);
            return false;
        }
        assert forall|a: int, b: int| 0 <= a <= b < i + 1 implies offsets@[a] <= offsets@[b] by {
            if b == i && a < i {
                assert(offsets@[a] <= offsets@[i - 1]);
            }
        }
        i = i + 1;
    }
    true
}

} // verus!
