//! Launch constants that depend on the device and on variables.

use crate::device_caps::{CudaArchFamily, CudaDeviceCaps};
use crate::kernels::gdn_policy::{
    chunk_state_v_split_for, overridden, GdnLaunchPolicy, GdnOverrides,
};
use crate::text::{parsed_i32, trimmed};
use vstd::prelude::*;

verus! {

/// One head's scan is split over as many blocks as let 32 heads fill the multiprocessors, in
/// powers of two and at most four.
pub proof fn lemma_value_split_fills_the_device(count: u32, more: u32, split: i32, other: i32)
    requires
        call_ensures(chunk_state_v_split_for, (count,), split),
        call_ensures(chunk_state_v_split_for, (more,), other),
        count <= more,
    ensures
        split == 1 || split == 2 || split == 4,
        split > 1 ==> 32 * split <= count,
        split < 4 ==> count < 64 * split,
        split <= other,
{
}

/// Whether a variable holds the number, with white space around it or not.
pub open spec fn holds_number(value: Option<&str>, number: int) -> bool {
    value matches Some(text) && parsed_i32(trimmed(text@)) == Some(number)
}

/// A field follows its variable where that holds a number that the kernels are instantiated
/// for, and else keeps the value it has without overrides.
pub open spec fn follows(field: i32, value: Option<&str>, allowed: Set<int>, usual: i32) -> bool {
    &&& (exists|number: int| #[trigger] holds_number(value, number) && allowed.contains(number))
        ==> holds_number(value, field as int) && allowed.contains(field as int)
    &&& !(exists|number: int| #[trigger] holds_number(value, number) && allowed.contains(number))
        ==> field == usual
}

proof fn lemma_follows(current: i32, value: Option<&str>, allowed: Seq<i32>, set: Set<int>)
    requires
        forall|number: i32| #[trigger] allowed.contains(number) <==> set.contains(number as int),
        forall|number: int| #[trigger] set.contains(number) ==> 0 <= number <= 1024,
    ensures
        follows(overridden(current, value, allowed), value, set, current),
{
    let field = overridden(current, value, allowed);
    assert forall|number: int|
        #[trigger] holds_number(value, number) && set.contains(number) implies field == number by {
        assert(set.contains(number as i32 as int));
        assert(allowed.contains(number as i32));
    }
    if let Some(text) = value {
        if let Some(number) = parsed_i32(trimmed(text@)) {
            assert(holds_number(value, number));
            if allowed.contains(number as i32) {
                assert(set.contains(number as i32 as int));
                assert(i32::MIN <= number <= i32::MAX);
            }
        }
    }
}

/// Each variable sets its own field, and no other.
pub proof fn lemma_overrides_set_their_own_field(
    caps: CudaDeviceCaps,
    overrides: GdnOverrides<'_>,
    plain: GdnOverrides<'_>,
    policy: GdnLaunchPolicy,
    usual: GdnLaunchPolicy,
)
    requires
        call_ensures(GdnLaunchPolicy::for_device, (&caps, &overrides), policy),
        call_ensures(GdnLaunchPolicy::for_device, (&caps, &plain), usual),
        plain.chunk_state_tile is None && plain.chunk_state_threads is None
            && plain.chunk_state_wmma is None && plain.chunk_gemm_tile is None
            && plain.recurrent_split is None && plain.chunk_state_v_split is None,
    ensures
        follows(
            policy.chunk_state_tile,
            overrides.chunk_state_tile,
            set![1int, 2, 4, 8, 16],
            usual.chunk_state_tile,
        ),
        follows(
            policy.chunk_state_threads,
            overrides.chunk_state_threads,
            set![128int, 256, 512, 1024],
            usual.chunk_state_threads,
        ),
        follows(
            policy.chunk_gemm_tile,
            overrides.chunk_gemm_tile,
            set![1int, 2, 4, 8, 16, 32],
            usual.chunk_gemm_tile,
        ),
        follows(
            policy.recurrent_split,
            overrides.recurrent_split,
            set![1int, 2, 4],
            usual.recurrent_split,
        ),
        follows(
            policy.chunk_state_v_split,
            overrides.chunk_state_v_split,
            set![1int, 2, 4, 8],
            usual.chunk_state_v_split,
        ),
{
    let tiles = crate::kernels::gdn_policy::state_tiles();
    let threads = crate::kernels::gdn_policy::state_threads();
    let gemm = crate::kernels::gdn_policy::gemm_tiles();
    let recurrent = crate::kernels::gdn_policy::recurrent_splits();
    let values = crate::kernels::gdn_policy::value_splits();
    assert(tiles[0] == 1 && tiles[1] == 2 && tiles[2] == 4 && tiles[3] == 8 && tiles[4] == 16);
    assert(threads[0] == 128 && threads[1] == 256 && threads[2] == 512 && threads[3] == 1024);
    assert(gemm[0] == 1 && gemm[1] == 2 && gemm[2] == 4 && gemm[3] == 8 && gemm[4] == 16 && gemm[5]
        == 32);
    assert(recurrent[0] == 1 && recurrent[1] == 2 && recurrent[2] == 4);
    assert(values[0] == 1 && values[1] == 2 && values[2] == 4 && values[3] == 8);
    lemma_follows(
        usual.chunk_state_tile,
        overrides.chunk_state_tile,
        tiles,
        set![1int, 2, 4, 8, 16],
    );
    lemma_follows(
        usual.chunk_state_threads,
        overrides.chunk_state_threads,
        threads,
        set![128int, 256, 512, 1024],
    );
    lemma_follows(
        usual.chunk_gemm_tile,
        overrides.chunk_gemm_tile,
        gemm,
        set![1int, 2, 4, 8, 16, 32],
    );
    lemma_follows(
        usual.recurrent_split,
        overrides.recurrent_split,
        recurrent,
        set![1int, 2, 4],
    );
    lemma_follows(
        usual.chunk_state_v_split,
        overrides.chunk_state_v_split,
        values,
        set![1int, 2, 4, 8],
    );
}

/// Whether a variable holds a word, with white space around it or not.
pub open spec fn holds_word(value: Option<&str>, word: Seq<char>) -> bool {
    value matches Some(text) && trimmed(text@) == word
}

/// The form of the scan is scalar for `0`, `off` and `false`, one pass on tensor cores for `1`,
/// `lossy`, `on` and `true`, and else what it is without overrides.
pub proof fn lemma_form_follows_its_word(
    caps: CudaDeviceCaps,
    overrides: GdnOverrides<'_>,
    plain: GdnOverrides<'_>,
    policy: GdnLaunchPolicy,
    usual: GdnLaunchPolicy,
)
    requires
        call_ensures(GdnLaunchPolicy::for_device, (&caps, &overrides), policy),
        call_ensures(GdnLaunchPolicy::for_device, (&caps, &plain), usual),
        plain.chunk_state_wmma is None,
    ensures
        ({
            let value = overrides.chunk_state_wmma;
            let scalar = holds_word(value, seq!['0']) || holds_word(value, seq!['o', 'f', 'f'])
                || holds_word(value, seq!['f', 'a', 'l', 's', 'e']);
            let tensor = holds_word(value, seq!['1']) || holds_word(
                value,
                seq!['l', 'o', 's', 's', 'y'],
            ) || holds_word(value, seq!['o', 'n']) || holds_word(value, seq!['t', 'r', 'u', 'e']);
            &&& scalar ==> policy.chunk_state_wmma == 0
            &&& tensor ==> policy.chunk_state_wmma == 1
            &&& !scalar && !tensor ==> policy.chunk_state_wmma == usual.chunk_state_wmma
        }),
{
    reveal_strlit("0");
    reveal_strlit("off");
    reveal_strlit("false");
    reveal_strlit("1");
    reveal_strlit("lossy");
    reveal_strlit("on");
    reveal_strlit("true");
    assert("0"@ =~= seq!['0']);
    assert("off"@ =~= seq!['o', 'f', 'f']);
    assert("false"@ =~= seq!['f', 'a', 'l', 's', 'e']);
    assert("1"@ =~= seq!['1']);
    assert("lossy"@ =~= seq!['l', 'o', 's', 's', 'y']);
    assert("on"@ =~= seq!['o', 'n']);
    assert("true"@ =~= seq!['t', 'r', 'u', 'e']);
    assert("0"@[0] != "1"@[0]);
    assert("false"@[0] != "lossy"@[0]);
    assert("0"@.len() == 1 && "off"@.len() == 3 && "false"@.len() == 5 && "1"@.len() == 1
        && "lossy"@.len() == 5 && "on"@.len() == 2 && "true"@.len() == 4);
}

/// Without overrides a device has the constants of its family, and the split of its width.
pub proof fn lemma_families_have_their_constants(
    caps: CudaDeviceCaps,
    plain: GdnOverrides<'_>,
    usual: GdnLaunchPolicy,
    table: GdnLaunchPolicy,
    split: i32,
)
    requires
        call_ensures(GdnLaunchPolicy::for_device, (&caps, &plain), usual),
        call_ensures(GdnLaunchPolicy::defaults_for, (caps.arch_family,), table),
        call_ensures(chunk_state_v_split_for, (caps.multiprocessor_count,), split),
        plain.chunk_state_tile is None && plain.chunk_state_threads is None
            && plain.chunk_state_wmma is None && plain.chunk_gemm_tile is None
            && plain.recurrent_split is None && plain.chunk_state_v_split is None,
    ensures
        usual.chunk_state_v_split == split,
        usual.chunk_state_tile == table.chunk_state_tile && usual.chunk_state_threads
            == table.chunk_state_threads && usual.chunk_state_wmma == table.chunk_state_wmma
            && usual.chunk_gemm_tile == table.chunk_gemm_tile && usual.recurrent_split
            == table.recurrent_split,
        caps.arch_family == CudaArchFamily::Sm100 ==> table.chunk_state_tile == 4
            && table.chunk_state_threads == 1024 && table.chunk_state_wmma == 1
            && table.chunk_gemm_tile == 4 && table.recurrent_split == 4,
        caps.arch_family != CudaArchFamily::Sm100 ==> table.chunk_state_tile == 8
            && table.chunk_state_threads == 512 && table.chunk_state_wmma == 0
            && table.chunk_gemm_tile == 8 && table.recurrent_split == 1,
        table.chunk_state_v_split == 1,
{
}

} // verus!
