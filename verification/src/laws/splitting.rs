//! How attention is split along the keys.

use crate::kernels::attention::split::{
    choose_splits, is_saturated, lemma_choice_is_efficient, lemma_planned_splits_are_bounded,
    plan_fa2_split_count, saturated, split_work, tiles, SplitWork,
};
use vstd::prelude::*;

verus! {

/// `count` is the number of parts of at most `size` that `n` things make.
pub open spec fn is_cover(n: int, size: int, count: int) -> bool {
    size * (count - 1) < n <= size * count
}

/// The keys that one tile covers.
pub open spec fn tile_of(head_dim: int) -> int {
    if head_dim <= 64 {
        256
    } else if head_dim <= 128 {
        128
    } else {
        64
    }
}

proof fn lemma_cover(n: int, size: int, count: int)
    requires
        n >= 0,
        size > 0,
        is_cover(n, size, count),
    ensures
        tiles(n, size) == count,
{
    assert((n + size - 1) / size == count) by (nonlinear_arith)
        requires
            size > 0,
            size * (count - 1) < n <= size * count,
    ;
}

/// Work that fills the device is not split: each head of each batch makes a job of
/// every 64 rows, and four jobs for five of the device's two slots per multiprocessor
/// are enough.
pub proof fn lemma_busy_device_is_not_split(
    batches: usize,
    query_tokens: usize,
    key_tokens: usize,
    query_heads: usize,
    head_dim: usize,
    multiprocessors: usize,
    splits: usize,
    rows: int,
)
    requires
        call_ensures(
            plan_fa2_split_count,
            (batches, query_tokens, key_tokens, query_heads, head_dim, multiprocessors),
            splits,
        ),
        is_cover(query_tokens as int, 64, rows),
        batches * query_heads * rows * 5 >= multiprocessors * 2 * 4,
        batches * query_heads * rows * 5 <= usize::MAX,
    ensures
        splits == 1,
{
    lemma_cover(query_tokens as int, 64, rows);
    let heads = batches * query_heads;
    if batches > 0 && query_heads > 0 && query_tokens > 0 {
        assert(heads > 0) by (nonlinear_arith)
            requires
                batches > 0,
                query_heads > 0,
                heads == batches * query_heads,
        ;
        assert(heads <= heads * rows && heads * rows <= heads * rows * 5) by (nonlinear_arith)
            requires
                heads > 0,
                rows >= 1,
        ;
    }
}

/// Work that is split leaves slots idle, has a key tile and a slot for each part, and
/// gains from the last split: the longest part gets shorter.
pub proof fn lemma_split_work_leaves_slots_idle(
    batches: usize,
    query_tokens: usize,
    key_tokens: usize,
    query_heads: usize,
    head_dim: usize,
    multiprocessors: usize,
    splits: usize,
    rows: int,
    parts: int,
    shares: int,
    before: int,
)
    requires
        call_ensures(
            plan_fa2_split_count,
            (batches, query_tokens, key_tokens, query_heads, head_dim, multiprocessors),
            splits,
        ),
        splits > 1,
        is_cover(query_tokens as int, 64, rows),
        is_cover(key_tokens as int, tile_of(head_dim as int), parts),
        is_cover(parts, splits as int, shares),
        is_cover(parts, splits - 1, before),
    ensures
        batches * query_heads * rows * 5 < multiprocessors * 2 * 4,
        splits <= 128,
        splits <= 2 * multiprocessors,
        splits <= parts,
        shares < before,
{
    lemma_cover(query_tokens as int, 64, rows);
    lemma_cover(key_tokens as int, tile_of(head_dim as int), parts);
    lemma_cover(parts, splits as int, shares);
    lemma_cover(parts, splits - 1, before);
    lemma_planned_splits_are_bounded(
        batches,
        query_tokens,
        key_tokens,
        query_heads,
        head_dim,
        multiprocessors,
    );
    let work = split_work(
        batches,
        query_tokens,
        key_tokens,
        query_heads,
        head_dim,
        multiprocessors,
    );
    let heads = batches * query_heads;
    assert(heads > 0) by (nonlinear_arith)
        requires
            batches > 0,
            query_heads > 0,
            heads == batches * query_heads,
    ;
    assert(saturated(heads) * rows > 0) by (nonlinear_arith)
        requires
            saturated(heads) > 0,
            rows >= 1,
    ;
    assert(parts <= key_tokens) by (nonlinear_arith)
        requires
            tile_of(head_dim as int) * (parts - 1) < key_tokens,
            tile_of(head_dim as int) >= 1,
            parts >= 1,
    ;
    assert(!is_saturated(work));
    lemma_choice_is_efficient(work);
    if heads > usize::MAX {
        assert(saturated(heads) * rows >= usize::MAX) by (nonlinear_arith)
            requires
                saturated(heads) == usize::MAX,
                rows >= 1,
        ;
    }
    let p = parts;
    let s = splits as int;
    assert(shares <= before) by (nonlinear_arith)
        requires
            s * (shares - 1) < p,
            p <= (s - 1) * before,
            s > 1,
            before >= 0,
    ;
}

/// Heads of several batches are so many heads of one batch.
pub proof fn lemma_batches_are_heads(
    batches: usize,
    query_tokens: usize,
    key_tokens: usize,
    query_heads: usize,
    head_dim: usize,
    multiprocessors: usize,
    heads: usize,
    splits: usize,
    folded: usize,
)
    requires
        heads == batches * query_heads,
        call_ensures(
            plan_fa2_split_count,
            (batches, query_tokens, key_tokens, query_heads, head_dim, multiprocessors),
            splits,
        ),
        call_ensures(
            plan_fa2_split_count,
            (1, query_tokens, key_tokens, heads, head_dim, multiprocessors),
            folded,
        ),
    ensures
        splits == folded,
{
    if batches > 0 && query_heads > 0 {
        assert(batches * query_heads > 0) by (nonlinear_arith)
            requires
                batches > 0,
                query_heads > 0,
        ;
    }
    assert(1 * heads == heads) by (nonlinear_arith);
}

/// Any 64 query rows of a head are one job, as 64 heads with one row each are 64.
pub proof fn lemma_rows_of_a_tile_are_one_job(
    batches: usize,
    query_tokens: usize,
    key_tokens: usize,
    query_heads: usize,
    head_dim: usize,
    multiprocessors: usize,
    splits: usize,
    one_row: usize,
)
    requires
        0 < query_tokens <= 64,
        call_ensures(
            plan_fa2_split_count,
            (batches, query_tokens, key_tokens, query_heads, head_dim, multiprocessors),
            splits,
        ),
        call_ensures(
            plan_fa2_split_count,
            (batches, 1, key_tokens, query_heads, head_dim, multiprocessors),
            one_row,
        ),
    ensures
        splits == one_row,
{
    lemma_cover(query_tokens as int, 64, 1);
    lemma_cover(1, 64, 1);
}

/// A plan counts a job for every 64 query rows of every head of every batch, two slots for every
/// multiprocessor and a tile for every so many keys as the head's width allows.
pub proof fn lemma_plan_counts_its_work(
    batches: usize,
    query_tokens: usize,
    key_tokens: usize,
    query_heads: usize,
    head_dim: usize,
    multiprocessors: usize,
    rows: int,
    work: SplitWork,
    splits: usize,
    chosen: usize,
)
    requires
        call_ensures(
            plan_fa2_split_count,
            (batches, query_tokens, key_tokens, query_heads, head_dim, multiprocessors),
            splits,
        ),
        call_ensures(choose_splits, (&work,), chosen),
        0 < batches && 0 < query_tokens && 0 < key_tokens && 0 < query_heads && 0 < head_dim && 0
            < multiprocessors,
        is_cover(query_tokens as int, 64, rows),
        work.base_jobs == batches * query_heads * rows,
        work.execution_slots == 2 * multiprocessors,
        is_cover(key_tokens as int, tile_of(head_dim as int), work.key_tiles as int),
    ensures
        splits == chosen,
{
    lemma_cover(query_tokens as int, 64, rows);
    lemma_cover(key_tokens as int, tile_of(head_dim as int), work.key_tiles as int);
    let heads = batches * query_heads;
    assert(heads > 0) by (nonlinear_arith)
        requires
            batches > 0,
            query_heads > 0,
            heads == batches * query_heads,
    ;
    assert(heads <= heads * rows) by (nonlinear_arith)
        requires
            heads > 0,
            rows >= 1,
    ;
}

/// Nothing to do is not split.
pub proof fn lemma_empty_work_is_not_split(
    batches: usize,
    query_tokens: usize,
    key_tokens: usize,
    query_heads: usize,
    head_dim: usize,
    multiprocessors: usize,
    splits: usize,
)
    requires
        call_ensures(
            plan_fa2_split_count,
            (batches, query_tokens, key_tokens, query_heads, head_dim, multiprocessors),
            splits,
        ),
        batches == 0 || query_tokens == 0 || key_tokens == 0 || query_heads == 0 || head_dim == 0
            || multiprocessors == 0,
    ensures
        splits == 1,
{
}

} // verus!
