use apxinf_cuda::context::{
    format_cublas_version, format_cuda_runtime_version, CudaLibraryVersions,
};

#[test]
fn formats_cuda_runtime_versions() {
    assert_eq!(format_cuda_runtime_version(12_060).unwrap(), "12.6");
    assert_eq!(format_cuda_runtime_version(13_001).unwrap(), "13.0.1");
}

#[test]
fn formats_cublas_versions() {
    assert_eq!(format_cublas_version(120_604).unwrap(), "12.6.4");
    assert_eq!(format_cublas_version(110_208).unwrap(), "11.2.8");
}

#[test]
fn invalid_versions_are_reported() {
    assert_eq!(
        format_cuda_runtime_version(0).unwrap_err(),
        "CUDA runtime returned invalid version 0"
    );
    assert_eq!(
        format_cublas_version(-3).unwrap_err(),
        "cuBLAS returned invalid version -3"
    );
    let versions = CudaLibraryVersions::from_reported(12_060, 120_604).unwrap();
    assert_eq!(versions.cuda, "12.6");
    assert_eq!(versions.cublas, "12.6.4");
    assert!(CudaLibraryVersions::from_reported(12_060, 0).is_err());
}

#[test]
fn versions_have_texts_of_their_own() {
    let texts: std::collections::HashSet<String> =
        (1..30_000).map(|version| format_cuda_runtime_version(version).unwrap()).collect();
    assert_eq!(texts.len(), 29_999);
    let texts: std::collections::HashSet<String> =
        (10_000..140_000).map(|version| format_cublas_version(version).unwrap()).collect();
    assert_eq!(texts.len(), 130_000);
    // The two ways of counting meet.
    assert_eq!(format_cublas_version(1000), format_cublas_version(10_000));
}
