//! What a refusal says: it names the operands that were given, and only what is wrong with them.

use crate::context::CudaContext;
use crate::error::{Error, Shape};
use crate::kernels::contracts::{
    checked_bytes, matrix_shape, require_address, require_buffer, require_device,
};
use crate::kernels::gemm::bf16::{
    gemm_bf16, gemm_bf16_geglu_fused, set_cublaslt_gemm_heuristic, GegluRequest, GemmRequest,
};
use crate::kernels::gemm::fp8::{
    gemm_fp8, gemm_fp8_bf16, gemm_fp8_bias_bf16, gemm_fp8_dynamic_bf16, gemm_fp8_geglu_fused,
    DynamicFp8Launch, DynamicFp8WeightView, Fp8Bf16Launch, Fp8GegluRequest, Fp8Request,
    Fp8WeightView,
};
use crate::kernels::gemm::providers::ProviderCall;
use crate::kernels::gemm::w8a8::{gemm_w8a8, W8A8Request, W8A8WeightView};
use crate::text::EnvironmentValue;
use crate::tuning::BuildFeatures;
use crate::types::{CudaBuffer, CudaDeviceAddress, DType, Device, Tensor};
use vstd::prelude::*;

verus! {

/// A shape shows how many extents there are, and the first four of them.
pub open spec fn shows(shape: Shape, dims: Seq<usize>) -> bool {
    let first_four = seq![shape.first, shape.second, shape.third, shape.fourth];
    &&& dims.len() <= usize::MAX ==> shape.rank == dims.len()
    &&& forall|i: int|
        0 <= i < 4 ==> (#[trigger] first_four[i]) == (if i < dims.len() {
            dims[i]
        } else {
            0
        })
}

/// Two matrices that can be multiplied.
pub open spec fn multiply(a: Seq<usize>, b: Seq<usize>) -> bool {
    a.len() == 2 && b.len() == 2 && a[1] == b[0]
}

/// One extent for each of `n` columns.
pub open spec fn spans(dims: Seq<usize>, n: usize) -> bool {
    dims =~= seq![n]
}

/// A refusal over two operands: their types are judged first and shown in order, then their
/// shapes, and then where they live.
pub open spec fn names_operands(
    error: Error,
    a: Tensor,
    b: Tensor,
    typed: bool,
    shaped: bool,
    here: Device,
) -> bool {
    &&& !typed ==> error is Operands
    &&& error matches Error::Operands(_, left, right) ==> {
        &&& !typed
        &&& left == a.dtype && right == b.dtype
    }
    &&& error matches Error::Shapes { left, right, .. } ==> {
        &&& typed && !shaped
        &&& shows(left, a.dims@) && shows(right, b.dims@)
    }
    &&& error matches Error::DeviceMismatch { expected, got } ==> {
        &&& typed && shaped
        &&& expected == here && got != here
        &&& a.device != here ==> got == a.device
    }
}

/// A shape is that of its extents.
pub proof fn lemma_shape_shows_its_extents(dims: &[usize], shape: Shape)
    requires
        call_ensures(Shape::of, (dims,), shape),
    ensures
        shows(shape, dims@),
{
}

/// A buffer is refused where it lives elsewhere or is too short, and the refusal says which.
pub proof fn lemma_refused_buffer_is_named(
    ctx: CudaContext,
    operation: &'static str,
    name: &'static str,
    buffer: CudaBuffer,
    required: usize,
    result: Result<(), Error>,
)
    requires
        call_ensures(require_buffer, (&ctx, operation, name, &buffer, required), result),
    ensures
        result is Ok <==> buffer.device == ctx.device_id && required <= buffer.len,
        result matches Err(error) ==> match error {
            Error::BufferDevice { operation: o, name: n, expected, got } => {
                &&& o == operation && n == name
                &&& expected == ctx.device_id && got == buffer.device && expected != got
            },
            Error::BufferLength { operation: o, name: n, required: wanted, got } => {
                &&& o == operation && n == name
                &&& wanted == required && got == buffer.len && got < wanted
                &&& buffer.device == ctx.device_id
            },
            _ => false,
        },
{
}

/// A refused address shows all that it was judged by.
pub proof fn lemma_refused_address_is_named(
    ctx: CudaContext,
    operation: &'static str,
    name: &'static str,
    address: CudaDeviceAddress,
    required: usize,
    result: Result<(), Error>,
)
    requires
        call_ensures(require_address, (&ctx, operation, name, address, required), result),
    ensures
        result is Ok <==> address.device == ctx.device_id && required <= address.len,
        result matches Err(error) ==> match error {
            Error::Address { operation: o, name: n, required: wanted, expected, len, device } => {
                &&& o == operation && n == name
                &&& wanted == required && len == address.len
                &&& expected == ctx.device_id && device == address.device
                &&& len < wanted || device != expected
            },
            _ => false,
        },
{
}

/// A tensor elsewhere is refused with both devices.
pub proof fn lemma_refused_device_is_named(
    ctx: CudaContext,
    got: Device,
    result: Result<(), Error>,
)
    requires
        call_ensures(require_device, (&ctx, got), result),
    ensures
        result is Ok <==> got == Device::Cuda(ctx.device_id),
        result matches Err(error) ==> match error {
            Error::DeviceMismatch { expected, got: found } => {
                &&& expected == Device::Cuda(ctx.device_id)
                &&& found == got && found != expected
            },
            _ => false,
        },
{
}

/// A block without a size: its element type is judged first, then its extents, then its size.
pub proof fn lemma_refused_size_is_explained(
    dtype: DType,
    dims: &[usize],
    operation: &'static str,
    result: Result<usize, Error>,
)
    requires
        call_ensures(checked_bytes, (dtype, dims, operation), result),
    ensures
        result matches Err(error) ==> match error {
            Error::UnsupportedDType { operation: o, dtype: found } => {
                &&& o == operation && found == dtype
                &&& dtype != DType::F32 && dtype != DType::F16 && dtype != DType::BF16
            },
            Error::Dimensions { operation: o, shape, .. } => {
                &&& o == operation && shows(shape, dims@)
                &&& exists|i: int| 0 <= i < dims@.len() && #[trigger] dims@[i] == 0
            },
            Error::Operation { operation: o, .. } => {
                &&& o == operation
                &&& forall|i: int| 0 <= i < dims@.len() ==> #[trigger] dims@[i] != 0
            },
            _ => false,
        },
{
}

/// What is no matrix is refused with its shape.
pub proof fn lemma_refused_matrix_is_shown(
    tensor: Tensor,
    operation: &'static str,
    result: Result<(usize, usize), Error>,
)
    requires
        call_ensures(matrix_shape, (&tensor, operation), result),
    ensures
        result is Err <==> tensor.dims@.len() != 2,
        result matches Err(error) ==> match error {
            Error::Dimensions { operation: o, shape, .. } => o == operation && shows(
                shape,
                tensor.dims@,
            ),
            _ => false,
        },
{
}

/// A rank out of range is refused by its number.
pub proof fn lemma_refused_rank_is_shown(
    m: usize,
    n: usize,
    k: usize,
    rank: i32,
    result: Result<ProviderCall, Error>,
)
    requires
        call_ensures(set_cublaslt_gemm_heuristic, (m, n, k, rank), result),
    ensures
        result is Err <==> !(0 <= rank < 64),
        result matches Err(error) ==> (error matches Error::Number(_, number) && number == rank),
{
}

/// A refused BF16 product.
pub proof fn lemma_refused_bf16_product_is_explained(
    ctx: CudaContext,
    activation: Tensor,
    weight: Tensor,
    result: Result<GemmRequest, Error>,
)
    requires
        call_ensures(gemm_bf16, (&ctx, &activation, &weight), result),
    ensures
        result matches Err(error) ==> names_operands(
            error,
            activation,
            weight,
            activation.dtype == DType::BF16 && weight.dtype == DType::BF16,
            multiply(activation.dims@, weight.dims@),
            Device::Cuda(ctx.device_id),
        ),
{
}

/// A refused BF16 gate and up projection.
pub proof fn lemma_refused_bf16_geglu_is_explained(
    ctx: CudaContext,
    activation: Tensor,
    weight: Tensor,
    interleaved: bool,
    automatic: Option<&Tensor>,
    sm89: Option<&Tensor>,
    result: Result<GegluRequest, Error>,
)
    requires
        call_ensures(
            gemm_bf16_geglu_fused,
            (&ctx, &activation, &weight, interleaved, automatic, sm89),
            result,
        ),
    ensures
        result matches Err(error) ==> names_operands(
            error,
            activation,
            weight,
            activation.dtype == DType::BF16 && weight.dtype == DType::BF16,
            multiply(activation.dims@, weight.dims@) && weight.dims@[1] % 2 == 0,
            Device::Cuda(ctx.device_id),
        ),
{
}

/// A refused FP8 product; a weight that is interleaved is refused before its type is looked at.
pub proof fn lemma_refused_fp8_product_is_explained(
    ctx: CudaContext,
    activation: Tensor,
    activation_scale: u32,
    weight: Fp8WeightView<'_>,
    emulated: bool,
    result: Result<Fp8Request, Error>,
)
    requires
        call_ensures(gemm_fp8, (&ctx, &activation, activation_scale, weight, emulated), result),
    ensures
        weight.dual_geglu_interleaved ==> (result matches Err(error) && error is Other),
        !weight.dual_geglu_interleaved ==> (result matches Err(error) ==> names_operands(
            error,
            activation,
            *weight.values_e4m3,
            activation.dtype == DType::F8E4M3 && weight.values_e4m3.dtype == DType::F8E4M3,
            multiply(activation.dims@, weight.values_e4m3.dims@),
            Device::Cuda(ctx.device_id),
        )),
{
}

/// A refused FP8 gate and up projection.
pub proof fn lemma_refused_fp8_geglu_is_explained(
    ctx: CudaContext,
    activation: Tensor,
    activation_scale: u32,
    weight: Fp8WeightView<'_>,
    output_scale: u32,
    emulated: bool,
    result: Result<Option<Fp8GegluRequest>, Error>,
)
    requires
        call_ensures(
            gemm_fp8_geglu_fused,
            (&ctx, &activation, activation_scale, weight, output_scale, emulated),
            result,
        ),
    ensures
        result matches Err(error) ==> names_operands(
            error,
            activation,
            *weight.values_e4m3,
            activation.dtype == DType::F8E4M3 && weight.values_e4m3.dtype == DType::F8E4M3,
            multiply(activation.dims@, weight.values_e4m3.dims@) && weight.values_e4m3.dims@[1] % 2
                == 0,
            Device::Cuda(ctx.device_id),
        ),
{
}

/// A refused product with BF16 output, where no list of ranks is at fault.
pub proof fn lemma_refused_fp8_bf16_is_explained(
    ctx: CudaContext,
    activation: Tensor,
    activation_scale: u32,
    weight: Fp8WeightView<'_>,
    native: bool,
    may_prepare: bool,
    value: EnvironmentValue,
    result: Result<Fp8Bf16Launch, Error>,
)
    requires
        call_ensures(
            gemm_fp8_bf16,
            (&ctx, &activation, activation_scale, weight, native, may_prepare, &value),
            result,
        ),
        !may_prepare || value is Unset,
    ensures
        result matches Err(error) ==> names_operands(
            error,
            activation,
            *weight.values_e4m3,
            activation.dtype == DType::F8E4M3 && weight.values_e4m3.dtype == DType::F8E4M3,
            multiply(activation.dims@, weight.values_e4m3.dims@),
            Device::Cuda(ctx.device_id),
        ),
{
}

/// A refused product with a bias shows the bias too, where no list of ranks is at fault.
pub proof fn lemma_refused_fp8_bias_is_explained(
    ctx: CudaContext,
    activation: Tensor,
    activation_scale: u32,
    weight: Fp8WeightView<'_>,
    bias: Tensor,
    native: bool,
    may_prepare: bool,
    value: EnvironmentValue,
    result: Result<Fp8Bf16Launch, Error>,
)
    requires
        call_ensures(
            gemm_fp8_bias_bf16,
            (&ctx, &activation, activation_scale, weight, &bias, native, may_prepare, &value),
            result,
        ),
        !may_prepare || value is Unset,
    ensures
        ({
            let values = *weight.values_e4m3;
            let typed = activation.dtype == DType::F8E4M3 && values.dtype == DType::F8E4M3
                && bias.dtype == DType::BF16;
            let shaped = multiply(activation.dims@, values.dims@) && spans(
                bias.dims@,
                values.dims@[1],
            );
            result matches Err(error) ==> {
                &&& !typed ==> error is BiasOperands
                &&& error matches Error::BiasOperands(_, left, right, third) ==> {
                    &&& !typed
                    &&& left == activation.dtype && right == values.dtype && third == bias.dtype
                }
                &&& error matches Error::BiasShapes { left, right, bias: third, .. } ==> {
                    &&& typed && !shaped
                    &&& shows(left, activation.dims@) && shows(right, values.dims@)
                    &&& shows(third, bias.dims@)
                }
                &&& error matches Error::DeviceMismatch { expected, got } ==> {
                    &&& typed && shaped
                    &&& expected == Device::Cuda(ctx.device_id) && got != expected
                    &&& activation.device != expected ==> got == activation.device
                }
            }
        }),
{
}

/// A refused product with scales by row and by channel: the operands come before their scales,
/// and both before the bias.
pub proof fn lemma_refused_dynamic_product_is_explained(
    build: BuildFeatures,
    ctx: CudaContext,
    activation: Tensor,
    activation_scales: Tensor,
    weight: DynamicFp8WeightView<'_>,
    bias: Option<&Tensor>,
    emulated: bool,
    result: Result<DynamicFp8Launch, Error>,
)
    requires
        call_ensures(
            gemm_fp8_dynamic_bf16,
            (&build, &ctx, &activation, &activation_scales, weight, bias, emulated),
            result,
        ),
    ensures
        ({
            let (values, scales) = (*weight.values_e4m3, *weight.channel_scales);
            let (a, b) = (activation.dims@, values.dims@);
            let typed = activation.dtype == DType::F8E4M3 && values.dtype == DType::F8E4M3;
            let shaped = a.len() == 2 && b.len() == 2 && a[1] == b[1];
            result matches Err(error) ==> {
                &&& error matches Error::Operands(_, left, right) ==> if typed {
                    &&& left == activation_scales.dtype && right == scales.dtype
                    &&& left != DType::F32 || right != DType::F32
                } else {
                    left == activation.dtype && right == values.dtype
                }
                &&& error matches Error::Shapes { left, right, .. } ==> typed && if shaped {
                    &&& shows(left, activation_scales.dims@) && shows(right, scales.dims@)
                    &&& !spans(activation_scales.dims@, a[0]) || !spans(scales.dims@, b[0])
                } else {
                    shows(left, a) && shows(right, b)
                }
                &&& error matches Error::Operand { dtype, shape, .. } ==> {
                    &&& typed && shaped
                    &&& bias matches Some(vector) && dtype == vector.dtype && shows(
                        shape,
                        vector.dims@,
                    ) && (vector.dtype != DType::BF16 || !spans(vector.dims@, b[0]))
                }
                &&& error matches Error::DeviceMismatch { expected, got } ==> {
                    &&& typed && shaped
                    &&& expected == Device::Cuda(ctx.device_id) && got != expected
                    &&& activation.device != expected ==> got == activation.device
                }
            }
        }),
{
}

/// A refused product of quantized rows shows the activation.
pub proof fn lemma_refused_w8a8_product_is_explained(
    build: BuildFeatures,
    ctx: CudaContext,
    activation: Tensor,
    weight: W8A8WeightView<'_>,
    result: Result<W8A8Request, Error>,
)
    requires
        call_ensures(gemm_w8a8, (&build, &ctx, &activation, weight), result),
    ensures
        result matches Err(error) ==> {
            &&& error is Operand || error is Other
            &&& error matches Error::Operand { dtype, shape, .. } ==> {
                &&& dtype == activation.dtype && shows(shape, activation.dims@)
                &&& dtype == DType::BF16 && activation.device == Device::Cuda(ctx.device_id)
                &&& activation.dims@.len() != 2 || activation.dims@[1] != weight.input_dim
            }
        },
        activation.dtype == DType::BF16 && activation.device == Device::Cuda(ctx.device_id) && (
        activation.dims@.len() != 2 || activation.dims@[1] != weight.input_dim) ==> (
        result matches Err(error) && error is Operand),
{
}

} // verus!
