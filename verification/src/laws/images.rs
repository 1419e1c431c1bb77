//! Images to patches.

use crate::context::CudaContext;
use crate::error::Error;
use crate::kernels::contracts::{finite_bits, positive_bits};
use crate::kernels::preprocess::{
    normalized_temporal_merged_preprocess_dimensions,
    rgb_u8_to_normalized_temporal_merged_patches_bf16, rgb_u8_to_patches_bf16,
    rgb_u8_to_patches_e4m3, rgb_u8_to_patches_f32, ImageLayout, MergedLaunch, Normalization,
    NormalizedTemporalMergedPreprocessDimensions, PatchesLaunch,
};
use crate::types::{CudaBuffer, DType, Device, Tensor};
use vstd::prelude::*;

verus! {

/// Where channel `c` of the pixel in line `y` and column `x` of view `v` stands.
pub open spec fn pixel_of(layout: ImageLayout, size: int, v: int, y: int, x: int, c: int) -> int {
    match layout {
        ImageLayout::Nhwc => ((v * size + y) * size + x) * 3 + c,
        ImageLayout::Nchw => ((v * 3 + c) * size + y) * size + x,
    }
}

/// The same, as the kernels read the number of a layout.
pub open spec fn kernel_pixel(layout: i32, size: int, v: int, y: int, x: int, c: int) -> int {
    if layout == 0 {
        ((v * size + y) * size + x) * 3 + c
    } else {
        ((v * 3 + c) * size + y) * size + x
    }
}

/// A launch reads every pixel where the layout has it and cuts whole patches out of every
/// view: each pixel of each view falls into one place of one patch.
pub open spec fn cuts_patches(
    launch: PatchesLaunch,
    dtype: DType,
    images: CudaBuffer,
    patches: Tensor,
    views: usize,
    image_size: usize,
    patch_size: usize,
    layout: ImageLayout,
    v: int,
    y: int,
    x: int,
    c: int,
) -> bool {
    &&& launch.images + kernel_pixel(launch.layout, launch.image_size as int, v, y, x, c)
        == images.address + pixel_of(layout, image_size as int, v, y, x, c)
    &&& launch.layout == 0 || launch.layout == 1
    &&& launch.patches == patches.buffer.address && launch.dtype == dtype
    &&& launch.views == views && launch.image_size == image_size && launch.patch_size == patch_size
}

/// Images and patches of one batch.
pub open spec fn are_images_and_patches(
    dtype: DType,
    images: CudaBuffer,
    patches: Tensor,
    views: usize,
    image_size: usize,
    patch_size: usize,
    device: usize,
) -> bool {
    &&& images.device == device && images.len == views * image_size * image_size * 3
    &&& patches.dtype == dtype && patches.dims@.len() == 2
    &&& patches.dims@[0] * (patch_size * patch_size) == views * (image_size * image_size)
    &&& patches.dims@[1] == 3 * (patch_size * patch_size)
}

proof fn lemma_grid(views: usize, image_size: usize, patch_size: usize)
    requires
        patch_size > 0,
        image_size % patch_size == 0,
    ensures
        ({
            let grid = image_size as int / patch_size as int;
            &&& views * grid * grid * (patch_size * patch_size) == views * (image_size
                * image_size)
            &&& 3 * patch_size * patch_size == 3 * (patch_size * patch_size)
            &&& views * 3 * image_size * image_size == views * image_size * image_size * 3
            &&& 0 <= grid
        }),
{
    let (v, s, p) = (views as int, image_size as int, patch_size as int);
    let grid = s / p;
    vstd::arithmetic::div_mod::lemma_fundamental_div_mod(s, p);
    assert(v * grid * grid * (p * p) == v * (s * s)) by (nonlinear_arith)
        requires
            s == p * grid,
    ;
    assert(3 * p * p == 3 * (p * p)) by (nonlinear_arith);
    assert(v * 3 * s * s == v * s * s * 3) by (nonlinear_arith);
    assert(0 <= grid) by (nonlinear_arith)
        requires
            grid == s / p,
            0 <= s,
            p > 0,
    ;
}

/// The three element types cut patches alike, see `cuts_patches`. Only E4M3 patches are
/// scaled, by a finite scale above zero.
pub proof fn lemma_patches_are_cut_alike(
    ctx: CudaContext,
    images: CudaBuffer,
    patches: Tensor,
    views: usize,
    image_size: usize,
    patch_size: usize,
    layout: ImageLayout,
    scale: u32,
    brain: Result<PatchesLaunch, Error>,
    single: Result<PatchesLaunch, Error>,
    scaled: Result<PatchesLaunch, Error>,
    v: int,
    y: int,
    x: int,
    c: int,
)
    requires
        call_ensures(
            rgb_u8_to_patches_bf16,
            (&ctx, &images, &patches, views, image_size, patch_size, layout),
            brain,
        ),
        call_ensures(
            rgb_u8_to_patches_f32,
            (&ctx, &images, &patches, views, image_size, patch_size, layout),
            single,
        ),
        call_ensures(
            rgb_u8_to_patches_e4m3,
            (&ctx, &images, &patches, views, image_size, patch_size, layout, scale),
            scaled,
        ),
        views <= i32::MAX,
        image_size <= i32::MAX,
        patch_size <= i32::MAX,
        crate::kernels::preprocess::patch_sizes_fit(views, image_size, patch_size),
    ensures
        brain matches Ok(launch) ==> launch.scale == 0 && cuts_patches(
            launch,
            DType::BF16,
            images,
            patches,
            views,
            image_size,
            patch_size,
            layout,
            v,
            y,
            x,
            c,
        ),
        single matches Ok(launch) ==> launch.scale == 0 && cuts_patches(
            launch,
            DType::F32,
            images,
            patches,
            views,
            image_size,
            patch_size,
            layout,
            v,
            y,
            x,
            c,
        ),
        scaled matches Ok(launch) ==> launch.scale == scale && positive_bits(scale) && cuts_patches(
            launch,
            DType::F8E4M3,
            images,
            patches,
            views,
            image_size,
            patch_size,
            layout,
            v,
            y,
            x,
            c,
        ),
        ({
            let whole = 0 < views && 0 < image_size && 0 < patch_size && image_size % patch_size
                == 0;
            &&& brain is Ok ==> whole && are_images_and_patches(
                DType::BF16,
                images,
                patches,
                views,
                image_size,
                patch_size,
                ctx.device_id,
            )
            &&& single is Ok ==> whole && are_images_and_patches(
                DType::F32,
                images,
                patches,
                views,
                image_size,
                patch_size,
                ctx.device_id,
            )
            &&& scaled is Ok ==> whole && are_images_and_patches(
                DType::F8E4M3,
                images,
                patches,
                views,
                image_size,
                patch_size,
                ctx.device_id,
            ) && patches.device == Device::Cuda(ctx.device_id)
        }),
{
    if patch_size > 0 && image_size % patch_size == 0 {
        lemma_grid(views, image_size, patch_size);
    }
}

/// The extents of temporal-merged patches: every pixel of every view stands once in each frame
/// of a patch, and the patches of a view fill squares of merged patches.
pub proof fn lemma_merged_extents_hold_every_pixel(
    views: usize,
    image_size: usize,
    patch_size: usize,
    temporal: usize,
    merge: usize,
    result: Result<NormalizedTemporalMergedPreprocessDimensions, Error>,
)
    requires
        call_ensures(
            normalized_temporal_merged_preprocess_dimensions,
            (views, image_size, patch_size, temporal, merge),
            result,
        ),
    ensures
        result matches Ok(d) ==> {
            &&& d.expected_bytes == views * image_size * image_size * 3
            &&& d.patch_rows * d.patch_width == d.expected_bytes * temporal
            &&& d.patch_width == 3 * temporal * (patch_size * patch_size)
            &&& d.views == views && d.image_size == image_size && d.patch_size == patch_size
            &&& d.temporal_patch_size == temporal && d.merge_size == merge
            &&& image_size as int % (patch_size * merge) == 0
            &&& d.patch_rows <= i32::MAX && d.patch_width <= i32::MAX
        },
        result is Ok ==> 0 < views && 0 < image_size && 0 < patch_size && 0 < temporal && 0
            < merge,
{
    if let Ok(d) = result {
        crate::kernels::preprocess::lemma_patches_hold_every_pixel(
            views,
            image_size,
            patch_size,
            temporal,
            merge,
        );
        let (v, s) = (views as int, image_size as int);
        assert(v * 3 * s * s == v * s * s * 3) by (nonlinear_arith);
        assert(0 <= v * s * s * 3) by (nonlinear_arith)
            requires
                0 <= v,
                0 <= s,
        ;
        let grid = crate::kernels::preprocess::side(image_size, patch_size);
        assert(0 <= grid) by (nonlinear_arith)
            requires
                grid == image_size as int / patch_size as int,
                patch_size > 0,
        ;
        assert(0 <= v * (grid * grid)) by (nonlinear_arith)
            requires
                0 <= v,
                0 <= grid,
        ;
        assert(0 <= 3 * temporal * (patch_size * patch_size)) by (nonlinear_arith);
    }
}

/// A temporal-merged launch reads every pixel where the layout has it and hands the kernel its
/// own extents and normalization.
pub proof fn lemma_merged_patches_are_normalized(
    ctx: CudaContext,
    images: CudaBuffer,
    patches: Tensor,
    views: usize,
    image_size: usize,
    patch_size: usize,
    temporal: usize,
    merge: usize,
    layout: ImageLayout,
    normalization: Normalization,
    extents: Result<NormalizedTemporalMergedPreprocessDimensions, Error>,
    result: Result<MergedLaunch, Error>,
    v: int,
    y: int,
    x: int,
    c: int,
)
    requires
        call_ensures(
            normalized_temporal_merged_preprocess_dimensions,
            (views, image_size, patch_size, temporal, merge),
            extents,
        ),
        call_ensures(
            rgb_u8_to_normalized_temporal_merged_patches_bf16,
            (
                &ctx,
                &images,
                &patches,
                views,
                image_size,
                patch_size,
                temporal,
                merge,
                layout,
                normalization,
            ),
            result,
        ),
    ensures
        result matches Ok(launch) ==> {
            &&& launch.images + kernel_pixel(launch.layout, image_size as int, v, y, x, c)
                == images.address + pixel_of(layout, image_size as int, v, y, x, c)
            &&& launch.patches == patches.buffer.address
            &&& launch.normalization == normalization
            &&& extents == Ok::<NormalizedTemporalMergedPreprocessDimensions, Error>(
                launch.dimensions,
            )
        },
        result is Ok <==> {
            &&& extents matches Ok(d) && {
                &&& images.device == ctx.device_id && images.len == d.expected_bytes
                &&& patches.dtype == DType::BF16 && patches.device == Device::Cuda(ctx.device_id)
                &&& patches.dims@.len() == 2 && patches.dims@[0] == d.patch_rows
                    && patches.dims@[1] == d.patch_width
            }
            &&& 0 < normalization.rescale_factor < 0x7ff0_0000_0000_0000
            &&& finite_bits(normalization.mean.red) && finite_bits(normalization.mean.green)
                && finite_bits(normalization.mean.blue)
            &&& positive_bits(normalization.deviation.red) && positive_bits(
                normalization.deviation.green,
            ) && positive_bits(normalization.deviation.blue)
        },
{
    if let Ok(d) = extents {
        if patches.dims@.len() == 2 && patches.dims@[0] == d.patch_rows && patches.dims@[1]
            == d.patch_width {
            assert(patches.dims@ =~= seq![d.patch_rows, d.patch_width]);
        }
    }
}

} // verus!
