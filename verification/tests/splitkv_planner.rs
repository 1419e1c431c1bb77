use apxinf_cuda::kernels::attention::split::plan_fa2_split_count;

fn official_fa2_choice(base_jobs: usize, execution_slots: usize, key_tiles: usize) -> usize {
    if base_jobs as f32 >= 0.8 * execution_slots as f32 {
        return 1;
    }
    let limit = 128.min(execution_slots).min(key_tiles);
    let eligible = |splits: usize| {
        splits == 1 || key_tiles.div_ceil(splits) != key_tiles.div_ceil(splits - 1)
    };
    let scores = (1..=limit)
        .map(|splits| {
            if !eligible(splits) {
                return 0.0;
            }
            let waves = (base_jobs * splits) as f32 / execution_slots as f32;
            waves / waves.ceil()
        })
        .collect::<Vec<_>>();
    let peak = scores.iter().copied().fold(0.0f32, f32::max);
    (1..=limit)
        .find(|&splits| eligible(splits) && scores[splits - 1] >= 0.85 * peak)
        .unwrap_or(1)
}

#[test]
fn pi05_orin_shape_uses_three_splits() {
    assert_eq!(plan_fa2_split_count(1, 10, 532, 8, 256, 16), 3);
}

#[test]
fn saturated_or_single_tile_work_stays_unsplit() {
    assert_eq!(plan_fa2_split_count(1, 64, 512, 32, 256, 16), 1);
    assert_eq!(plan_fa2_split_count(1, 10, 32, 8, 256, 16), 1);
}

#[test]
fn invalid_or_overflowing_work_stays_unsplit() {
    assert_eq!(plan_fa2_split_count(0, 1, 64, 1, 256, 16), 1);
    assert_eq!(plan_fa2_split_count(1, 0, 64, 1, 256, 16), 1);
    assert_eq!(plan_fa2_split_count(1, 1, 0, 1, 256, 16), 1);
    assert_eq!(plan_fa2_split_count(1, 1, 64, 0, 256, 16), 1);
    assert_eq!(plan_fa2_split_count(1, 1, 64, 1, 0, 16), 1);
    assert_eq!(plan_fa2_split_count(1, 1, 64, 1, 256, 0), 1);
    assert_eq!(
        plan_fa2_split_count(usize::MAX, 64, usize::MAX, usize::MAX, 256, usize::MAX),
        1
    );
}

#[test]
fn agrees_with_official_fa2_policy_over_supported_domain() {
    for multiprocessors in 1..=128 {
        let execution_slots = multiprocessors * 2;
        for query_heads in 1..=256 {
            for key_tiles in 1..=128 {
                let expected = official_fa2_choice(query_heads, execution_slots, key_tiles);
                let actual = plan_fa2_split_count(
                    1,
                    1,
                    key_tiles * 64,
                    query_heads,
                    256,
                    multiprocessors,
                );
                assert_eq!(
                    actual, expected,
                    "SMs={multiprocessors}, heads={query_heads}, key_tiles={key_tiles}"
                );
            }
        }
    }
}
