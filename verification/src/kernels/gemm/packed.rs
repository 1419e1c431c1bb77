//! Bit-exact packed-BF16 weights for the batch-1 decode GEMV.
//!
//! A BF16 weight is stored as its sign and mantissa in one byte, its exponent
//! as a five-bit offset from a base, and the base once per 128 weights. The
//! packed copies are built on first use and kept. They sit beside the BF16
//! originals, because prefill wants real BF16 for the tensor cores.

use crate::text::{chars_of, parse_usize, parsed_unsigned, same};
use crate::types::CudaBuffer;
use vstd::prelude::*;

verus! {

pub const PACK_BLOCK: usize = 128;

/// Narrowest output width worth packing unless a variable moves it: the GEMV
/// over the packed form wins above this and loses badly below it.
pub const MIN_PACKED_WIDTH: usize = 36864;

/// The planes of a packed weight.
#[derive(Clone, Copy, Debug, PartialEq, Eq, Structural)]
pub struct PackedWeight {
    pub lo: CudaBuffer,
    pub off_lo: CudaBuffer,
    pub off_hi: CudaBuffer,
    pub base: CudaBuffer,
    pub k: usize,
    pub n: usize,
}

/// A weight by its device address and shape.
#[derive(Clone, Copy, Debug, PartialEq, Eq, Structural)]
pub struct PackedKey {
    pub address: usize,
    pub k: usize,
    pub n: usize,
}

#[derive(Clone, Copy, Debug, PartialEq, Eq, Structural)]
pub struct PackedEntry {
    pub key: PackedKey,
    pub weight: PackedWeight,
}

/// Whether the packed decode path is on, by the value of
/// `APXINF_PACKED_DECODE`. Off unless asked for.
pub fn enabled(value: Option<&str>) -> (on: bool)
    ensures
        on == (value matches Some(text) && (text@ == "1"@ || text@ == "on"@ || text@ == "true"@)),
{
    match value {
        Some(text) => {
            let chars = chars_of(text);
            same(&chars, "1") || same(&chars, "on") || same(&chars, "true")
        },
        None => false,
    }
}

/// The width that the value of `APXINF_PACKED_DECODE_MIN_N` asks for.
pub open spec fn asked_width(value: Option<&str>) -> int {
    match value {
        Some(text) => match parsed_unsigned(text@, usize::MAX as nat) {
            Some(width) => width as int,
            None => MIN_PACKED_WIDTH as int,
        },
        None => MIN_PACKED_WIDTH as int,
    }
}

pub fn min_packed_width(value: Option<&str>) -> (width: usize)
    ensures
        width == asked_width(value),
{
    match value {
        Some(text) => match parse_usize(&chars_of(text)) {
            Some(width) => width,
            None => MIN_PACKED_WIDTH,
        },
        None => MIN_PACKED_WIDTH,
    }
}

/// The sizes of the planes of a packed weight, and of the flag that says
/// whether the packing is faithful.
#[derive(Clone, Copy, Debug, PartialEq, Eq, Structural)]
pub struct PackedSizes {
    pub lo: usize,
    pub off_lo: usize,
    pub off_hi: usize,
    pub base: usize,
    pub reject: usize,
}

pub open spec fn packed_sizes(count: usize) -> PackedSizes {
    PackedSizes {
        lo: count,
        off_lo: count / 2,
        off_hi: count / 8,
        base: count / PACK_BLOCK,
        reject: 4,
    }
}

/// The sizes of a packed copy, where the shape can be packed.
pub fn build(k: usize, n: usize) -> (sizes: Option<PackedSizes>)
    requires
        k % PACK_BLOCK == 0 ==> k * n <= usize::MAX,
    ensures
        sizes == (if k % PACK_BLOCK != 0 {
            None
        } else {
            Some(packed_sizes((k * n) as usize))
        }),
{
    if k % PACK_BLOCK != 0 {
        return None;
    }
    let count: usize = k * n;
    Some(
        PackedSizes {
            lo: count,
            off_lo: count / 2,
            off_hi: count / 8,
            base: count / PACK_BLOCK,
            reject: 4,
        },
    )
}

/// A packed weight takes 209 bytes for every 128 weights: 13.0625 bits each.
pub proof fn lemma_packed_density(k: usize, n: usize)
    requires
        k % PACK_BLOCK == 0,
        k * n <= usize::MAX,
    ensures
        ({
            let sizes = packed_sizes((k * n) as usize);
            128 * (sizes.lo + sizes.off_lo + sizes.off_hi + sizes.base) == 209 * (k * n)
        }),
{
    let blocks = k / PACK_BLOCK;
    let count = k * n;
    let groups = blocks * n;
    assert(count == 128 * groups) by (nonlinear_arith)
        requires
            k == 128 * blocks,
            count == k * n,
            groups == blocks * n,
    ;
}

/// What a packed product does next.
#[derive(Clone, Copy, Debug, PartialEq, Eq, Structural)]
pub enum PackedStep {
    /// The caller uses its own path.
    Decline,
    /// Build the packed copy first.
    Build,
    /// `apxinf_packed_gemv_bf16`.
    Launch {
        lo: usize,
        off_lo: usize,
        off_hi: usize,
        base: usize,
        activation: usize,
        output: usize,
        n: i32,
        k: i32,
    },
}

pub open spec fn packed_launch(
    packed: PackedWeight,
    activation: CudaBuffer,
    output: CudaBuffer,
    n: usize,
    k: usize,
) -> PackedStep {
    PackedStep::Launch {
        lo: packed.lo.address,
        off_lo: packed.off_lo.address,
        off_hi: packed.off_hi.address,
        base: packed.base.address,
        activation: activation.address,
        output: output.address,
        n: n as i32,
        k: k as i32,
    }
}

/// The packed copy of a weight, if it was built.
pub open spec fn lookup_packed(entries: Seq<PackedEntry>, key: PackedKey) -> Option<PackedWeight>
    decreases entries.len(),
{
    if entries.len() == 0 {
        None
    } else if entries.last().key == key {
        Some(entries.last().weight)
    } else {
        lookup_packed(entries.drop_last(), key)
    }
}

/// The packed copies that were built so far.
#[derive(Debug)]
pub struct PackedCache {
    pub entries: Vec<PackedEntry>,
}

impl PackedCache {
    pub fn new() -> (cache: Self)
        ensures
            cache.entries@.len() == 0,
    {
        PackedCache { entries: Vec::new() }
    }

    pub fn find(&self, key: PackedKey) -> (found: Option<PackedWeight>)
        ensures
            found == lookup_packed(self.entries@, key),
    {
        let mut i: usize = self.entries.len();
        assert(self.entries@.take(i as int) =~= self.entries@);
        while i > 0
            invariant
                i <= self.entries.len(),
                lookup_packed(self.entries@, key) == lookup_packed(
                    self.entries@.take(i as int),
                    key,
                ),
            decreases i,
        {
            assert(self.entries@.take(i as int).drop_last() =~= self.entries@.take(i - 1));
            i = i - 1;
            if self.entries[i].key == key {
                return Some(self.entries[i].weight);
            }
        }
        None
    }

    /// Keep a packed copy that the packing kernel did not reject.
    pub fn insert(&mut self, key: PackedKey, weight: PackedWeight)
        ensures
            lookup_packed(final(self).entries@, key) == Some(weight),
            forall|other: PackedKey|
                other != key ==> #[trigger] lookup_packed(final(self).entries@, other)
                    == lookup_packed(old(self).entries@, other),
    {
        self.entries.push(PackedEntry { key, weight });
        assert(self.entries@.drop_last() =~= old(self).entries@);
    }
}

/// Run the batch-1 GEMV from the packed copy of a weight, building that copy
/// on first use. Narrow shapes are declined, and so are shapes that no
/// faithful copy was built of.
pub fn gemv(
    cache: &PackedCache,
    min_width: usize,
    weight: &CudaBuffer,
    activation: &CudaBuffer,
    output: &CudaBuffer,
    k: usize,
    n: usize,
) -> (step: PackedStep)
    ensures
        step == (if n < min_width {
            PackedStep::Decline
        } else {
            match lookup_packed(cache.entries@, (PackedKey { address: weight.address, k, n })) {
                None => if k % PACK_BLOCK != 0 {
                    PackedStep::Decline
                } else {
                    PackedStep::Build
                },
                Some(packed) => if packed.k != k || packed.n != n {
                    PackedStep::Decline
                } else {
                    packed_launch(packed, *activation, *output, n, k)
                },
            }
        }),
{
    if n < min_width {
        return PackedStep::Decline;
    }
    match cache.find(PackedKey { address: weight.address, k, n }) {
        None => if k % PACK_BLOCK != 0 {
            PackedStep::Decline
        } else {
            PackedStep::Build
        },
        Some(packed) => {
            if packed.k != k || packed.n != n {
                return PackedStep::Decline;
            }
            PackedStep::Launch {
                lo: packed.lo.address,
                off_lo: packed.off_lo.address,
                off_hi: packed.off_hi.address,
                base: packed.base.address,
                activation: activation.address,
                output: output.address,
                n: n as i32,
                k: k as i32,
            }
        },
    }
}

} // verus!
