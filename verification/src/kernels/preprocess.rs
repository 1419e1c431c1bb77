//! Input preprocessing operator contracts.

use super::contracts::{
    finite_bits, first_of, gpu_ptr, is_positive, pointer_problem, positive_bits, same_dims, unless,
};
use crate::context::CudaContext;
use crate::error::Error;
use crate::types::{CudaBuffer, DType, Device, Tensor};
use vstd::prelude::*;

verus! {

/// Memory layout of a fixed-shape batch of RGB `uint8` images.
#[derive(Clone, Copy, Debug, PartialEq, Eq, Structural)]
pub enum ImageLayout {
    /// `[views, image_size, image_size, 3]`.
    Nhwc,
    /// `[views, 3, image_size, image_size]`.
    Nchw,
}

impl ImageLayout {
    pub open spec fn kernel_number(self) -> i32 {
        match self {
            ImageLayout::Nhwc => 0,
            ImageLayout::Nchw => 1,
        }
    }

    /// How the kernels name the layout.
    pub fn kernel_value(self) -> (value: i32)
        ensures
            value == self.kernel_number(),
    {
        match self {
            ImageLayout::Nhwc => 0,
            ImageLayout::Nchw => 1,
        }
    }

    /// The layout's name.
    pub fn name(self) -> (name: &'static str)
        ensures
            name == (match self {
                ImageLayout::Nhwc => "nhwc",
                ImageLayout::Nchw => "nchw",
            }),
    {
        match self {
            ImageLayout::Nhwc => "nhwc",
            ImageLayout::Nchw => "nchw",
        }
    }
}

/// The extents of temporal-merged preprocessing, as sizes and as 32-bit kernel
/// arguments.
#[derive(Clone, Copy, Debug, PartialEq, Eq, Structural)]
pub struct NormalizedTemporalMergedPreprocessDimensions {
    pub expected_bytes: usize,
    pub patch_rows: usize,
    pub patch_width: usize,
    pub views: i32,
    pub image_size: i32,
    pub patch_size: i32,
    pub temporal_patch_size: i32,
    pub merge_size: i32,
}

pub const MERGED_DIMENSIONS: &'static str =
    "invalid temporal-merged BF16 image preprocessing dimensions";

pub const MERGED_VIEWS: &'static str = "temporal-merged views exceed the CUDA ABI range";

pub const MERGED_IMAGE: &'static str = "temporal-merged image size exceeds the CUDA ABI range";

pub const MERGED_PATCH: &'static str = "temporal-merged patch size exceeds the CUDA ABI range";

pub const MERGED_TEMPORAL: &'static str =
    "temporal-merged temporal patch size exceeds the CUDA ABI range";

pub const MERGED_MERGE: &'static str = "temporal-merged merge size exceeds the CUDA ABI range";

pub const MERGED_SIDE_OVERFLOW: &'static str = "temporal-merged patch/merge size overflow";

pub const MERGED_SIDE: &'static str =
    "temporal-merged patch/merge size exceeds the CUDA kernel range";

pub const MERGED_RAW_OVERFLOW: &'static str = "temporal-merged raw image size overflow";

pub const MERGED_RAW: &'static str =
    "temporal-merged raw image size exceeds the CUDA index range";

pub const MERGED_GRID_OVERFLOW: &'static str =
    "temporal-merged per-view patch row count overflow";

pub const MERGED_GRID: &'static str =
    "temporal-merged per-view patch row count exceeds the CUDA kernel range";

pub const MERGED_ROWS_OVERFLOW: &'static str = "temporal-merged patch row count overflow";

pub const MERGED_ROWS: &'static str =
    "temporal-merged patch row count exceeds the CUDA kernel range";

pub const MERGED_AREA_OVERFLOW: &'static str = "temporal-merged patch area overflow";

pub const MERGED_AREA: &'static str = "temporal-merged patch area exceeds the CUDA kernel range";

pub const MERGED_WIDTH_OVERFLOW: &'static str = "temporal-merged patch width overflow";

pub const MERGED_WIDTH: &'static str =
    "temporal-merged patch width exceeds the CUDA kernel range";

pub const MERGED_OUTPUT_OVERFLOW: &'static str =
    "temporal-merged output element count overflow";

pub const MERGED_OUTPUT: &'static str =
    "temporal-merged output element count exceeds the CUDA index range";

/// What keeps a number from a machine word, or from a 32-bit kernel number.
pub open spec fn kernel_problem(value: int, overflow: &'static str, range: &'static str) -> Option<
    Error,
> {
    if value > usize::MAX {
        Some(Error::Other(overflow))
    } else if value > i32::MAX {
        Some(Error::Other(range))
    } else {
        None
    }
}

/// What keeps a number from a machine word, or from a 64-bit kernel index.
pub open spec fn index_problem(value: int, overflow: &'static str, range: &'static str) -> Option<
    Error,
> {
    if value > usize::MAX {
        Some(Error::Other(overflow))
    } else if value > i64::MAX {
        Some(Error::Other(range))
    } else {
        None
    }
}

/// What keeps an argument from the kernel's 32-bit interface.
pub open spec fn abi_problem(value: usize, text: &'static str) -> Option<Error> {
    if value > i32::MAX {
        Some(Error::Other(text))
    } else {
        None
    }
}

/// Patches along one side of an image.
pub open spec fn side(image_size: usize, patch_size: usize) -> int {
    image_size as int / patch_size as int
}

pub open spec fn merged_problem(
    views: usize,
    image_size: usize,
    patch_size: usize,
    temporal_patch_size: usize,
    merge_size: usize,
) -> Option<Error> {
    let grid = side(image_size, patch_size);
    let rows = views * (grid * grid);
    let width = 3 * temporal_patch_size * (patch_size * patch_size);
    if views == 0 || image_size == 0 || patch_size == 0 || temporal_patch_size == 0 || merge_size
        == 0 {
        Some(Error::Other(MERGED_DIMENSIONS))
    } else {
        first_of(
            abi_problem(views, MERGED_VIEWS),
            first_of(
                abi_problem(image_size, MERGED_IMAGE),
                first_of(
                    abi_problem(patch_size, MERGED_PATCH),
                    first_of(
                        abi_problem(temporal_patch_size, MERGED_TEMPORAL),
                        first_of(
                            abi_problem(merge_size, MERGED_MERGE),
                            first_of(
                                kernel_problem(
                                    patch_size * merge_size,
                                    MERGED_SIDE_OVERFLOW,
                                    MERGED_SIDE,
                                ),
                                if image_size as int % (patch_size * merge_size) != 0 {
                                    Some(Error::Other(MERGED_DIMENSIONS))
                                } else {
                                    first_of(
                                        index_problem(
                                            views * 3 * image_size * image_size,
                                            MERGED_RAW_OVERFLOW,
                                            MERGED_RAW,
                                        ),
                                        first_of(
                                            kernel_problem(
                                                grid * grid,
                                                MERGED_GRID_OVERFLOW,
                                                MERGED_GRID,
                                            ),
                                            first_of(
                                                kernel_problem(
                                                    rows,
                                                    MERGED_ROWS_OVERFLOW,
                                                    MERGED_ROWS,
                                                ),
                                                first_of(
                                                    kernel_problem(
                                                        patch_size * patch_size,
                                                        MERGED_AREA_OVERFLOW,
                                                        MERGED_AREA,
                                                    ),
                                                    first_of(
                                                        kernel_problem(
                                                            width,
                                                            MERGED_WIDTH_OVERFLOW,
                                                            MERGED_WIDTH,
                                                        ),
                                                        index_problem(
                                                            rows * width,
                                                            MERGED_OUTPUT_OVERFLOW,
                                                            MERGED_OUTPUT,
                                                        ),
                                                    ),
                                                ),
                                            ),
                                        ),
                                    )
                                },
                            ),
                        ),
                    ),
                ),
            ),
        )
    }
}

pub open spec fn merged_dimensions(
    views: usize,
    image_size: usize,
    patch_size: usize,
    temporal_patch_size: usize,
    merge_size: usize,
) -> NormalizedTemporalMergedPreprocessDimensions {
    let grid = side(image_size, patch_size);
    NormalizedTemporalMergedPreprocessDimensions {
        expected_bytes: (views * 3 * image_size * image_size) as usize,
        patch_rows: (views * (grid * grid)) as usize,
        patch_width: (3 * temporal_patch_size * (patch_size * patch_size)) as usize,
        views: views as i32,
        image_size: image_size as i32,
        patch_size: patch_size as i32,
        temporal_patch_size: temporal_patch_size as i32,
        merge_size: merge_size as i32,
    }
}

fn abi(value: usize, text: &'static str) -> (result: Result<i32, Error>)
    ensures
        result == unless(abi_problem(value, text), value as i32),
{
    if value > 0x7fff_ffff {
        return Err(Error::Other(text));
    }
    Ok(value as i32)
}

fn kernel_product(a: usize, b: usize, overflow: &'static str, range: &'static str) -> (result:
    Result<usize, Error>)
    ensures
        result == unless(kernel_problem(a * b, overflow, range), (a * b) as usize),
{
    match a.checked_mul(b) {
        Some(value) => {
            if value > 0x7fff_ffff {
                return Err(Error::Other(range));
            }
            Ok(value)
        },
        None => Err(Error::Other(overflow)),
    }
}

fn index_product(a: usize, b: usize, overflow: &'static str, range: &'static str) -> (result:
    Result<usize, Error>)
    ensures
        result == unless(index_problem(a * b, overflow, range), (a * b) as usize),
{
    match a.checked_mul(b) {
        Some(value) => {
            if value as u64 > 0x7fff_ffff_ffff_ffff {
                return Err(Error::Other(range));
            }
            Ok(value)
        },
        None => Err(Error::Other(overflow)),
    }
}

/// The bytes of a batch of square RGB images, or nothing where they overflow.
fn raw_bytes(views: usize, image_size: usize) -> (result: Option<usize>)
    requires
        image_size > 0,
    ensures
        match result {
            Some(bytes) => bytes == views * 3 * image_size * image_size,
            None => views * 3 * image_size * image_size > usize::MAX,
        },
{
    let planes: usize = match views.checked_mul(3) {
        Some(planes) => planes,
        None => {
            assert(views * 3 * image_size * image_size >= views * 3) by (nonlinear_arith)
                requires
                    views >= 0,
                    image_size >= 1,
            ;
            return None;
        },
    };
    let lines: usize = match planes.checked_mul(image_size) {
        Some(lines) => lines,
        None => {
            assert(planes * image_size * image_size >= planes * image_size) by (nonlinear_arith)
                requires
                    planes >= 0,
                    image_size >= 1,
            ;
            return None;
        },
    };
    lines.checked_mul(image_size)
}

/// Check the extents of temporal-merged preprocessing against every size and
/// index that the kernel computes.
pub fn normalized_temporal_merged_preprocess_dimensions(
    views: usize,
    image_size: usize,
    patch_size: usize,
    temporal_patch_size: usize,
    merge_size: usize,
) -> (result: Result<NormalizedTemporalMergedPreprocessDimensions, Error>)
    ensures
        result == unless(
            merged_problem(views, image_size, patch_size, temporal_patch_size, merge_size),
            merged_dimensions(views, image_size, patch_size, temporal_patch_size, merge_size),
        ),
{
    if views == 0 || image_size == 0 || patch_size == 0 || temporal_patch_size == 0 || merge_size
        == 0 {
        return Err(Error::Other(MERGED_DIMENSIONS));
    }
    let views_abi: i32 = abi(views, MERGED_VIEWS)?;
    let image_abi: i32 = abi(image_size, MERGED_IMAGE)?;
    let patch_abi: i32 = abi(patch_size, MERGED_PATCH)?;
    let temporal_abi: i32 = abi(temporal_patch_size, MERGED_TEMPORAL)?;
    let merge_abi: i32 = abi(merge_size, MERGED_MERGE)?;
    let patch_merge: usize = kernel_product(
        patch_size,
        merge_size,
        MERGED_SIDE_OVERFLOW,
        MERGED_SIDE,
    )?;
    assert(patch_merge > 0) by (nonlinear_arith)
        requires
            patch_merge == patch_size * merge_size,
            patch_size > 0,
            merge_size > 0,
    ;
    if image_size % patch_merge != 0 {
        return Err(Error::Other(MERGED_DIMENSIONS));
    }
    let expected_bytes: usize = match raw_bytes(views, image_size) {
        Some(bytes) => bytes,
        None => {
            return Err(Error::Other(MERGED_RAW_OVERFLOW));
        },
    };
    if expected_bytes as u64 > 0x7fff_ffff_ffff_ffff {
        return Err(Error::Other(MERGED_RAW));
    }
    let grid: usize = image_size / patch_size;
    let per_view: usize = kernel_product(grid, grid, MERGED_GRID_OVERFLOW, MERGED_GRID)?;
    let patch_rows: usize = kernel_product(views, per_view, MERGED_ROWS_OVERFLOW, MERGED_ROWS)?;
    let area: usize = kernel_product(patch_size, patch_size, MERGED_AREA_OVERFLOW, MERGED_AREA)?;
    let channels: usize = match temporal_patch_size.checked_mul(3) {
        Some(channels) => channels,
        None => {
            assert(3 * temporal_patch_size * (patch_size * patch_size) >= 3 * temporal_patch_size)
                by (nonlinear_arith)
                requires
                    temporal_patch_size >= 0,
                    patch_size >= 1,
            ;
            return Err(Error::Other(MERGED_WIDTH_OVERFLOW));
        },
    };
    let patch_width: usize = kernel_product(
        channels,
        area,
        MERGED_WIDTH_OVERFLOW,
        MERGED_WIDTH,
    )?;
    index_product(patch_rows, patch_width, MERGED_OUTPUT_OVERFLOW, MERGED_OUTPUT)?;
    Ok(
        NormalizedTemporalMergedPreprocessDimensions {
            expected_bytes,
            patch_rows,
            patch_width,
            views: views_abi,
            image_size: image_abi,
            patch_size: patch_abi,
            temporal_patch_size: temporal_abi,
            merge_size: merge_abi,
        },
    )
}

/// Patches hold every pixel once per frame of the temporal patch: the output
/// has as many elements as the images have bytes, times the temporal size.
pub proof fn lemma_patches_hold_every_pixel(
    views: usize,
    image_size: usize,
    patch_size: usize,
    temporal_patch_size: usize,
    merge_size: usize,
)
    requires
        merged_problem(views, image_size, patch_size, temporal_patch_size, merge_size) is None,
    ensures
        ({
            let d = merged_dimensions(
                views,
                image_size,
                patch_size,
                temporal_patch_size,
                merge_size,
            );
            d.patch_rows * d.patch_width == d.expected_bytes * temporal_patch_size
        }),
{
    let p = patch_size as int;
    let m = merge_size as int;
    let i = image_size as int;
    let g = side(image_size, patch_size);
    assert(p * m > 0) by (nonlinear_arith)
        requires
            p > 0,
            m > 0,
    ;
    let k = i / (p * m);
    vstd::arithmetic::div_mod::lemma_fundamental_div_mod(i, p * m);
    assert(i == p * (m * k)) by (nonlinear_arith)
        requires
            i == p * m * k,
    ;
    assert(i / p == m * k) by (nonlinear_arith)
        requires
            i == p * (m * k),
            p > 0,
    ;
    assert(i == p * g);
    let v = views as int;
    let t = temporal_patch_size as int;
    assert(v * (g * g) * (3 * t * (p * p)) == v * 3 * (p * g) * (p * g) * t) by (nonlinear_arith);
    let d = merged_dimensions(views, image_size, patch_size, temporal_patch_size, merge_size);
    assert(d.patch_rows == v * (g * g));
    assert(d.patch_width == 3 * t * (p * p));
    assert(d.expected_bytes == v * 3 * i * i);
}

/// `apxinf_static_rgb_u8_to_patches_*`: images to patches of the element type.
#[derive(Clone, Copy, Debug, PartialEq, Eq, Structural)]
pub struct PatchesLaunch {
    pub dtype: DType,
    pub images: usize,
    pub patches: usize,
    pub views: i32,
    pub image_size: i32,
    pub patch_size: i32,
    pub layout: i32,
    /// The bits of the quantization scale; only E4M3 patches have one.
    pub scale: u32,
}

/// Whether whole patches cut an image.
pub open spec fn patches_divide(views: usize, image_size: usize, patch_size: usize) -> bool {
    views != 0 && image_size != 0 && patch_size != 0 && image_size % patch_size == 0
}

/// The extents of the patches.
pub open spec fn patch_dims(views: usize, image_size: usize, patch_size: usize) -> Seq<usize> {
    let grid = side(image_size, patch_size);
    seq![(views * grid * grid) as usize, (3 * patch_size * patch_size) as usize]
}

/// Whether the sizes of images and patches are machine words.
pub open spec fn patch_sizes_fit(views: usize, image_size: usize, patch_size: usize) -> bool {
    let grid = side(image_size, patch_size);
    &&& views * 3 <= usize::MAX
    &&& views * 3 * image_size <= usize::MAX
    &&& views * 3 * image_size * image_size <= usize::MAX
    &&& views * grid <= usize::MAX
    &&& views * grid * grid <= usize::MAX
    &&& 3 * patch_size <= usize::MAX
    &&& 3 * patch_size * patch_size <= usize::MAX
}

pub const BF16_SHAPE: &'static str = "invalid static inference BF16 image preprocessing shape";

pub const BF16_MISMATCH: &'static str =
    "static inference BF16 raw image/preprocessed patch mismatch";

pub const FP32_SHAPE: &'static str = "invalid static inference FP32 image preprocessing shape";

pub const FP32_MISMATCH: &'static str =
    "static inference FP32 raw image/preprocessed patch mismatch";

pub open spec fn patches_problem(
    ctx: CudaContext,
    dtype: DType,
    shape: &'static str,
    mismatch: &'static str,
    images: CudaBuffer,
    patches: Tensor,
    views: usize,
    image_size: usize,
    patch_size: usize,
) -> Option<Error> {
    if !patches_divide(views, image_size, patch_size) {
        Some(Error::Other(shape))
    } else if images.device != ctx.device_id || images.len != views * 3 * image_size * image_size
        || patches.dtype != dtype || patches.dims@ != patch_dims(views, image_size, patch_size) {
        Some(Error::Other(mismatch))
    } else {
        pointer_problem(patches)
    }
}

pub open spec fn patches_launch(
    dtype: DType,
    images: CudaBuffer,
    patches: Tensor,
    views: usize,
    image_size: usize,
    patch_size: usize,
    layout: ImageLayout,
    scale: u32,
) -> PatchesLaunch {
    PatchesLaunch {
        dtype,
        images: images.address,
        patches: patches.buffer.address,
        views: views as i32,
        image_size: image_size as i32,
        patch_size: patch_size as i32,
        layout: layout.kernel_number(),
        scale,
    }
}

fn expected_dims(views: usize, image_size: usize, patch_size: usize) -> (dims: Vec<usize>)
    requires
        patches_divide(views, image_size, patch_size),
        patch_sizes_fit(views, image_size, patch_size),
    ensures
        dims@ == patch_dims(views, image_size, patch_size),
{
    let grid: usize = image_size / patch_size;
    let dims: Vec<usize> = vec![views * grid * grid, 3 * patch_size * patch_size];
    assert(dims@ =~= patch_dims(views, image_size, patch_size));
    dims
}

fn to_patches(
    ctx: &CudaContext,
    dtype: DType,
    shape: &'static str,
    mismatch: &'static str,
    images: &CudaBuffer,
    patches: &Tensor,
    views: usize,
    image_size: usize,
    patch_size: usize,
    layout: ImageLayout,
) -> (result: Result<PatchesLaunch, Error>)
    requires
        patches_divide(views, image_size, patch_size) ==> patch_sizes_fit(
            views,
            image_size,
            patch_size,
        ),
    ensures
        result == unless(
            patches_problem(
                *ctx,
                dtype,
                shape,
                mismatch,
                *images,
                *patches,
                views,
                image_size,
                patch_size,
            ),
            patches_launch(dtype, *images, *patches, views, image_size, patch_size, layout, 0),
        ),
{
    if views == 0 || image_size == 0 || patch_size == 0 || image_size % patch_size != 0 {
        return Err(Error::Other(shape));
    }
    let bytes: usize = views * 3 * image_size * image_size;
    let dims = expected_dims(views, image_size, patch_size);
    if images.device != ctx.device_id || images.len != bytes || patches.dtype != dtype
        || !same_dims(&patches.dims, &dims) {
        return Err(Error::Other(mismatch));
    }
    let target: usize = gpu_ptr(patches)?;
    Ok(
        PatchesLaunch {
            dtype,
            images: images.address,
            patches: target,
            views: views as i32,
            image_size: image_size as i32,
            patch_size: patch_size as i32,
            layout: layout.kernel_value(),
            scale: 0,
        },
    )
}

/// Fused image preprocessing into BF16 patch-major layout.
pub fn rgb_u8_to_patches_bf16(
    ctx: &CudaContext,
    images: &CudaBuffer,
    patches: &Tensor,
    views: usize,
    image_size: usize,
    patch_size: usize,
    layout: ImageLayout,
) -> (result: Result<PatchesLaunch, Error>)
    requires
        patches_divide(views, image_size, patch_size) ==> patch_sizes_fit(
            views,
            image_size,
            patch_size,
        ),
    ensures
        result == unless(
            patches_problem(
                *ctx,
                DType::BF16,
                BF16_SHAPE,
                BF16_MISMATCH,
                *images,
                *patches,
                views,
                image_size,
                patch_size,
            ),
            patches_launch(
                DType::BF16,
                *images,
                *patches,
                views,
                image_size,
                patch_size,
                layout,
                0,
            ),
        ),
{
    to_patches(
        ctx,
        DType::BF16,
        BF16_SHAPE,
        BF16_MISMATCH,
        images,
        patches,
        views,
        image_size,
        patch_size,
        layout,
    )
}

/// Fused image preprocessing into FP32 patch-major layout.
///
/// Identical addressing to [`rgb_u8_to_patches_bf16`], but the normalized value
/// stays a 32-bit float: a patch embedding in FP32 must not see patches that
/// were rounded to BF16.
pub fn rgb_u8_to_patches_f32(
    ctx: &CudaContext,
    images: &CudaBuffer,
    patches: &Tensor,
    views: usize,
    image_size: usize,
    patch_size: usize,
    layout: ImageLayout,
) -> (result: Result<PatchesLaunch, Error>)
    requires
        patches_divide(views, image_size, patch_size) ==> patch_sizes_fit(
            views,
            image_size,
            patch_size,
        ),
    ensures
        result == unless(
            patches_problem(
                *ctx,
                DType::F32,
                FP32_SHAPE,
                FP32_MISMATCH,
                *images,
                *patches,
                views,
                image_size,
                patch_size,
            ),
            patches_launch(
                DType::F32,
                *images,
                *patches,
                views,
                image_size,
                patch_size,
                layout,
                0,
            ),
        ),
{
    to_patches(
        ctx,
        DType::F32,
        FP32_SHAPE,
        FP32_MISMATCH,
        images,
        patches,
        views,
        image_size,
        patch_size,
        layout,
    )
}

pub const E4M3_PARAMETERS: &'static str =
    "invalid static inference image preprocessing parameters";

pub const E4M3_RAW_OVERFLOW: &'static str = "static inference raw image size overflow";

pub const E4M3_IMAGES: &'static str =
    "static inference raw images must fill the batch exactly on the context's device";

pub const E4M3_PATCHES: &'static str =
    "static inference preprocessed output must be E4M3 patches on the context's device";

pub open spec fn e4m3_patches_problem(
    ctx: CudaContext,
    images: CudaBuffer,
    patches: Tensor,
    views: usize,
    image_size: usize,
    patch_size: usize,
    scale: u32,
) -> Option<Error> {
    if !patches_divide(views, image_size, patch_size) || !positive_bits(scale) {
        Some(Error::Other(E4M3_PARAMETERS))
    } else if views * 3 * image_size * image_size > usize::MAX {
        Some(Error::Other(E4M3_RAW_OVERFLOW))
    } else if images.device != ctx.device_id || images.len != views * 3 * image_size * image_size {
        Some(Error::Other(E4M3_IMAGES))
    } else if patches.dtype != DType::F8E4M3 || patches.dims@ != patch_dims(
        views,
        image_size,
        patch_size,
    ) || patches.device != Device::Cuda(ctx.device_id) {
        Some(Error::Other(E4M3_PATCHES))
    } else {
        None
    }
}

/// Fused preprocessing of an already resized RGB image batch.
///
/// The input is `uint8` NHWC or NCHW. The output is patch-major E4M3 with
/// shape `[views*(image_size/patch_size)^2, 3*patch_size^2]`. Normalization,
/// channel-first patch reordering, FP16 boundary rounding, and static FP8
/// quantization are performed by one stream-ordered kernel; the scale is given
/// by its bits.
pub fn rgb_u8_to_patches_e4m3(
    ctx: &CudaContext,
    images: &CudaBuffer,
    patches: &Tensor,
    views: usize,
    image_size: usize,
    patch_size: usize,
    layout: ImageLayout,
    scale: u32,
) -> (result: Result<PatchesLaunch, Error>)
    requires
        patches_divide(views, image_size, patch_size) && positive_bits(scale) && views * 3
            * image_size * image_size <= usize::MAX ==> patch_sizes_fit(
            views,
            image_size,
            patch_size,
        ),
    ensures
        result == unless(
            e4m3_patches_problem(*ctx, *images, *patches, views, image_size, patch_size, scale),
            patches_launch(
                DType::F8E4M3,
                *images,
                *patches,
                views,
                image_size,
                patch_size,
                layout,
                scale,
            ),
        ),
{
    if views == 0 || image_size == 0 || patch_size == 0 || image_size % patch_size != 0
        || !is_positive(scale) {
        return Err(Error::Other(E4M3_PARAMETERS));
    }
    let bytes: usize = match raw_bytes(views, image_size) {
        Some(bytes) => bytes,
        None => {
            return Err(Error::Other(E4M3_RAW_OVERFLOW));
        },
    };
    let dims = expected_dims(views, image_size, patch_size);
    if images.device != ctx.device_id || images.len != bytes {
        return Err(Error::Other(E4M3_IMAGES));
    }
    if patches.dtype != DType::F8E4M3 || !same_dims(&patches.dims, &dims) || patches.device
        != Device::Cuda(ctx.device_id) {
        return Err(Error::Other(E4M3_PATCHES));
    }
    Ok(
        PatchesLaunch {
            dtype: DType::F8E4M3,
            images: images.address,
            patches: patches.buffer.address,
            views: views as i32,
            image_size: image_size as i32,
            patch_size: patch_size as i32,
            layout: layout.kernel_value(),
            scale,
        },
    )
}

/// A 32-bit float per channel, by its bits.
#[derive(Clone, Copy, Debug, PartialEq, Eq, Structural)]
pub struct Channels {
    pub red: u32,
    pub green: u32,
    pub blue: u32,
}

/// The normalization of temporal-merged preprocessing, by the bits of its
/// floats: 64 bits of the rescale factor, 32 of each mean and deviation.
#[derive(Clone, Copy, Debug, PartialEq, Eq, Structural)]
pub struct Normalization {
    pub rescale_factor: u64,
    pub mean: Channels,
    pub deviation: Channels,
}

/// `apxinf_rgb_u8_to_normalized_temporal_merged_patches_bf16`.
#[derive(Clone, Copy, Debug, PartialEq, Eq, Structural)]
pub struct MergedLaunch {
    pub images: usize,
    pub patches: usize,
    pub dimensions: NormalizedTemporalMergedPreprocessDimensions,
    pub layout: i32,
    pub normalization: Normalization,
}

pub const MERGED_PARAMETERS: &'static str =
    "invalid temporal-merged BF16 image preprocessing parameters";

pub const MERGED_IMAGES: &'static str =
    "temporal-merged raw images must fill the batch exactly on the context's device";

pub const MERGED_PATCHES: &'static str =
    "temporal-merged patches must be BF16 patches on the context's device";

/// Whether the bits are those of a finite 64-bit float above zero.
pub open spec fn positive_wide_bits(bits: u64) -> bool {
    0 < bits < 0x7ff0_0000_0000_0000
}

/// Whether a normalization is finite, with a factor and deviations above zero.
pub open spec fn normalizes(normalization: Normalization) -> bool {
    &&& positive_wide_bits(normalization.rescale_factor)
    &&& finite_bits(normalization.mean.red)
    &&& finite_bits(normalization.mean.green)
    &&& finite_bits(normalization.mean.blue)
    &&& positive_bits(normalization.deviation.red)
    &&& positive_bits(normalization.deviation.green)
    &&& positive_bits(normalization.deviation.blue)
}

pub open spec fn merged_patches_problem(
    ctx: CudaContext,
    images: CudaBuffer,
    patches: Tensor,
    views: usize,
    image_size: usize,
    patch_size: usize,
    temporal_patch_size: usize,
    merge_size: usize,
    normalization: Normalization,
) -> Option<Error> {
    let dimensions = merged_dimensions(
        views,
        image_size,
        patch_size,
        temporal_patch_size,
        merge_size,
    );
    if !normalizes(normalization) {
        Some(Error::Other(MERGED_PARAMETERS))
    } else {
        first_of(
            merged_problem(views, image_size, patch_size, temporal_patch_size, merge_size),
            if images.device != ctx.device_id || images.len != dimensions.expected_bytes {
                Some(Error::Other(MERGED_IMAGES))
            } else if patches.dtype != DType::BF16 || patches.dims@ != seq![
                dimensions.patch_rows,
                dimensions.patch_width,
            ] || patches.device != Device::Cuda(ctx.device_id) {
                Some(Error::Other(MERGED_PATCHES))
            } else {
                None
            },
        )
    }
}

fn finite(bits: u32) -> (result: bool)
    ensures
        result == finite_bits(bits),
{
    bits % 0x8000_0000 < 0x7f80_0000
}

/// Temporal-merged still-image preprocessing of an already resized RGB image
/// batch.
///
/// The output follows the temporal-patch and spatial-merge order and is
/// normalized channel-wise before it is rounded to BF16.
pub fn rgb_u8_to_normalized_temporal_merged_patches_bf16(
    ctx: &CudaContext,
    images: &CudaBuffer,
    patches: &Tensor,
    views: usize,
    image_size: usize,
    patch_size: usize,
    temporal_patch_size: usize,
    merge_size: usize,
    layout: ImageLayout,
    normalization: Normalization,
) -> (result: Result<MergedLaunch, Error>)
    ensures
        result == unless(
            merged_patches_problem(
                *ctx,
                *images,
                *patches,
                views,
                image_size,
                patch_size,
                temporal_patch_size,
                merge_size,
                normalization,
            ),
            MergedLaunch {
                images: images.address,
                patches: patches.buffer.address,
                dimensions: merged_dimensions(
                    views,
                    image_size,
                    patch_size,
                    temporal_patch_size,
                    merge_size,
                ),
                layout: layout.kernel_number(),
                normalization,
            },
        ),
{
    let factor: u64 = normalization.rescale_factor;
    if factor == 0 || factor >= 0x7ff0_0000_0000_0000 || !finite(normalization.mean.red) || !finite(
        normalization.mean.green,
    ) || !finite(normalization.mean.blue) || !is_positive(normalization.deviation.red)
        || !is_positive(normalization.deviation.green) || !is_positive(normalization.deviation.blue) {
        return Err(Error::Other(MERGED_PARAMETERS));
    }
    let dimensions = normalized_temporal_merged_preprocess_dimensions(
        views,
        image_size,
        patch_size,
        temporal_patch_size,
        merge_size,
    )?;
    let expected: Vec<usize> = vec![dimensions.patch_rows, dimensions.patch_width];
    assert(expected@ =~= seq![dimensions.patch_rows, dimensions.patch_width]);
    if images.device != ctx.device_id || images.len != dimensions.expected_bytes {
        return Err(Error::Other(MERGED_IMAGES));
    }
    if patches.dtype != DType::BF16 || !same_dims(&patches.dims, &expected) || patches.device
        != Device::Cuda(ctx.device_id) {
        return Err(Error::Other(MERGED_PATCHES));
    }
    Ok(
        MergedLaunch {
            images: images.address,
            patches: patches.buffer.address,
            dimensions,
            layout: layout.kernel_value(),
            normalization,
        },
    )
}

} // verus!
