use apxinf_cuda::device_caps::{CudaArchFamily, CudaDeviceCaps};
use apxinf_cuda::kernels::gdn_policy::{
    chunk_state_v_split_for, override_from, override_wmma, wmma, GdnLaunchPolicy, GdnOverrides,
};

#[test]
fn the_two_families_get_their_own_sweeps() {
    let thor = GdnLaunchPolicy::defaults_for(CudaArchFamily::Sm100);
    let orin = GdnLaunchPolicy::defaults_for(CudaArchFamily::Sm80);
    assert_eq!((thor.chunk_state_tile, thor.chunk_gemm_tile), (4, 4));
    assert_eq!((orin.chunk_state_tile, orin.chunk_gemm_tile), (8, 8));
    assert_eq!(
        (thor.chunk_state_threads, orin.chunk_state_threads),
        (1024, 512)
    );
    assert_eq!(thor.recurrent_split, 4);
    assert_eq!(orin.recurrent_split, 1);
    assert_eq!(thor.chunk_state_wmma, wmma::LOSSY);
    assert_eq!(orin.chunk_state_wmma, wmma::OFF);
}

#[test]
fn an_unknown_family_gets_the_conservative_table() {
    assert_eq!(
        GdnLaunchPolicy::defaults_for(CudaArchFamily::Other(75)),
        GdnLaunchPolicy::defaults_for(CudaArchFamily::Sm80)
    );
}

#[test]
fn overrides_reject_values_the_kernels_are_not_instantiated_for() {
    let mut tile = 4;
    override_from(None, &mut tile, &[1, 2, 4]);
    assert_eq!(tile, 4);
    let mut mode = wmma::OFF;
    override_wmma(None, &mut mode);
    assert_eq!(mode, wmma::OFF);
}

#[test]
fn value_split_follows_the_device_width() {
    // 16 SMs (Orin) and 20 (Thor) are narrower than the 32 heads the scan
    // already launches, so they keep one block per head.
    assert_eq!(chunk_state_v_split_for(16), 1);
    assert_eq!(chunk_state_v_split_for(20), 1);
    // 128 SMs (RTX 4090) fit four blocks per head.
    assert_eq!(chunk_state_v_split_for(128), 4);
    assert_eq!(chunk_state_v_split_for(64), 2);
    assert_eq!(chunk_state_v_split_for(63), 1);
}

#[test]
fn overrides_are_applied_only_where_they_can_launch() {
    let mut tile = 4;
    override_from(Some("3"), &mut tile, &[1, 2, 4]);
    assert_eq!(tile, 4);
    override_from(Some(" 2 "), &mut tile, &[1, 2, 4]);
    assert_eq!(tile, 2);
    override_from(Some("two"), &mut tile, &[1, 2, 4]);
    assert_eq!(tile, 2);
}

#[test]
fn a_device_policy_takes_the_width_and_the_overrides() {
    let caps = CudaDeviceCaps {
        sm: 87,
        compute_major: 8,
        multiprocessor_count: 128,
        arch_family: CudaArchFamily::Sm80,
    };
    let none = GdnOverrides {
        chunk_state_tile: None,
        chunk_state_threads: None,
        chunk_state_wmma: None,
        chunk_gemm_tile: None,
        recurrent_split: None,
        chunk_state_v_split: None,
    };
    let policy = GdnLaunchPolicy::for_device(&caps, &none);
    assert_eq!(policy.chunk_state_v_split, 4);
    assert_eq!(policy.chunk_state_tile, 8);
    let policy = GdnLaunchPolicy::for_device(
        &caps,
        &GdnOverrides {
            chunk_state_tile: Some("16"),
            chunk_state_v_split: Some("7"),
            ..none
        },
    );
    assert_eq!(policy.chunk_state_tile, 16);
    assert_eq!(policy.chunk_state_v_split, 4);
}
