//! Splitting fused projections into queries, keys and values.

use super::super::contracts::{
    allocate_matrix, first_of, gpu_ptr, is_positive, matrix_extents, matrix_output, matrix_shape,
    optional_address, optional_problem, optional_ptr, output_problem, pointer_problem,
    positive_bits, same_dims, unless, MatrixOutput,
};
use super::super::elementwise::{bias_matches, check_bias};
use crate::error::Error;
use crate::types::{CudaBuffer, DType, Tensor};
use vstd::prelude::*;

verus! {

/// Queries, keys and values.
#[derive(Clone, Debug)]
pub struct QkvTensors {
    pub q: Tensor,
    pub k: Tensor,
    pub v: Tensor,
}

/// `apxinf_static_qkv_split_bias_*`. Three outputs of the given size are
/// allocated, each `[tokens, heads, head_dim]`.
#[derive(Clone, Copy, Debug, PartialEq, Eq, Structural)]
pub struct SplitBiasLaunch {
    pub qkv: usize,
    pub bias: usize,
    pub tokens: i32,
    pub width: i32,
    pub output: MatrixOutput,
}

pub const SPLIT_BF16: &'static str = "static inference BF16 vision QKV shape mismatch";

pub const SPLIT_F16: &'static str = "static inference vision QKV expected FP16 [tokens, width]";

pub open spec fn split_text(dtype: DType) -> &'static str {
    if dtype == DType::BF16 {
        SPLIT_BF16
    } else {
        SPLIT_F16
    }
}

pub open spec fn split_bias_problem(
    dtype: DType,
    qkv: Tensor,
    bias: Option<&Tensor>,
    heads: usize,
    head_dim: usize,
) -> Option<Error> {
    match matrix_extents(qkv, "vision QKV split") {
        Err(error) => Some(error),
        Ok((tokens, width)) => if qkv.dtype != dtype || width != 3 * (heads * head_dim)
            || !bias_matches(bias, dtype, width) {
            Some(Error::Other(split_text(dtype)))
        } else {
            first_of(
                output_problem(dtype, tokens as int, heads * head_dim),
                first_of(pointer_problem(qkv), optional_problem(bias)),
            )
        },
    }
}

pub open spec fn split_bias_launch(
    dtype: DType,
    qkv: Tensor,
    bias: Option<&Tensor>,
    heads: usize,
    head_dim: usize,
) -> SplitBiasLaunch {
    SplitBiasLaunch {
        qkv: qkv.buffer.address,
        bias: optional_address(bias),
        tokens: qkv.dims@[0] as i32,
        width: (heads * head_dim) as i32,
        output: matrix_output(dtype, qkv.dims@[0], (heads * head_dim) as usize),
    }
}

fn split_bias(dtype: DType, text: &'static str, qkv: &Tensor, bias: Option<&Tensor>, heads: usize, head_dim: usize) -> (result:
    Result<SplitBiasLaunch, Error>)
    requires
        dtype == DType::BF16 || dtype == DType::F16,
        text == split_text(dtype),
        heads * head_dim <= usize::MAX,
        3 * (heads * head_dim) <= usize::MAX,
    ensures
        result == unless(
            split_bias_problem(dtype, *qkv, bias, heads, head_dim),
            split_bias_launch(dtype, *qkv, bias, heads, head_dim),
        ),
{
    let (tokens, width) = matrix_shape(qkv, "vision QKV split")?;
    let projection: usize = heads * head_dim;
    if qkv.dtype != dtype || width != 3 * projection || !check_bias(bias, dtype, width) {
        return Err(Error::Other(text));
    }
    let output = allocate_matrix(dtype, tokens, projection)?;
    let source: usize = gpu_ptr(qkv)?;
    let values: usize = optional_ptr(bias)?;
    Ok(
        SplitBiasLaunch {
            qkv: source,
            bias: values,
            tokens: tokens as i32,
            width: projection as i32,
            output,
        },
    )
}

/// Split a biased dense BF16 projection into `[tokens, heads, head_dim]`
/// tensors without RoPE.
pub fn split_qkv_bias_bf16(qkv: &Tensor, bias: Option<&Tensor>, heads: usize, head_dim: usize) -> (result:
    Result<SplitBiasLaunch, Error>)
    requires
        3 * (heads * head_dim) <= usize::MAX,
    ensures
        result == unless(
            split_bias_problem(DType::BF16, *qkv, bias, heads, head_dim),
            split_bias_launch(DType::BF16, *qkv, bias, heads, head_dim),
        ),
{
    split_bias(DType::BF16, SPLIT_BF16, qkv, bias, heads, head_dim)
}

/// Split a biased dense FP16 projection into `[tokens, heads, head_dim]`
/// tensors without RoPE. This is the SigLIP attention layout.
pub fn split_qkv_bias_f16(qkv: &Tensor, bias: Option<&Tensor>, heads: usize, head_dim: usize) -> (result:
    Result<SplitBiasLaunch, Error>)
    requires
        3 * (heads * head_dim) <= usize::MAX,
    ensures
        result == unless(
            split_bias_problem(DType::F16, *qkv, bias, heads, head_dim),
            split_bias_launch(DType::F16, *qkv, bias, heads, head_dim),
        ),
{
    split_bias(DType::F16, SPLIT_F16, qkv, bias, heads, head_dim)
}

/// Where keys and values go: new tensors `[cache_tokens, kv_heads, head_dim]`,
/// or rows of existing caches.
#[derive(Clone, Copy, Debug, PartialEq, Eq, Structural)]
pub enum CacheTarget {
    Owned { rows: usize, cols: usize, bytes: usize },
    Existing { key: usize, value: usize },
}

/// `apxinf_static_gqa_qkv_mrope_cache_*`. The queries are
/// `[tokens, q_heads, head_dim]` BF16.
#[derive(Clone, Copy, Debug, PartialEq, Eq, Structural)]
pub struct MropeLaunch {
    /// The projection is FP16.
    pub half: bool,
    pub qkv: usize,
    pub bias: usize,
    pub position_ids: usize,
    pub tokens: i32,
    pub q_heads: i32,
    pub kv_heads: i32,
    pub head_dim: i32,
    pub theta: u32,
    pub section_height: i32,
    pub section_width: i32,
    pub cache_offset: i32,
    pub query: MatrixOutput,
    pub target: CacheTarget,
}

/// The extents of a fused projection with multimodal rotary positions.
#[derive(Clone, Copy, Debug, PartialEq, Eq, Structural)]
pub struct MropeShape {
    pub q_heads: usize,
    pub kv_heads: usize,
    pub head_dim: usize,
    /// The bits of the rotary base.
    pub theta: u32,
    /// The rotary sections of height and width.
    pub section_height: usize,
    pub section_width: usize,
    pub cache_tokens: usize,
}

impl MropeShape {
    /// The width of the projection.
    pub open spec fn width(self) -> int {
        self.q_heads * self.head_dim + 2 * (self.kv_heads * self.head_dim)
    }

    /// Whether the widths are machine words.
    pub open spec fn fits(self) -> bool {
        &&& self.q_heads * self.head_dim <= usize::MAX
        &&& self.kv_heads * self.head_dim <= usize::MAX
        &&& 2 * (self.kv_heads * self.head_dim) <= usize::MAX
        &&& self.width() <= usize::MAX
        &&& self.section_height + self.section_width <= usize::MAX
    }
}

pub const MROPE_MISMATCH: &'static str = "static inference BF16 GQA QKV mRoPE shape mismatch";

pub const MROPE_CACHE: &'static str = "static inference BF16 GQA QKV cache shape mismatch";

pub const MROPE_SHORT: &'static str = "static inference BF16 GQA QKV cache is too short";

/// Whether a projection, its positions and its bias belong together.
pub open spec fn mrope_matches(
    qkv: Tensor,
    bias: Option<&Tensor>,
    position_ids: CudaBuffer,
    shape: MropeShape,
) -> bool {
    &&& qkv.dtype == DType::BF16 || qkv.dtype == DType::F16
    &&& qkv.dims@[1] == shape.width()
    &&& shape.q_heads != 0
    &&& shape.kv_heads != 0
    &&& shape.q_heads % shape.kv_heads == 0
    &&& shape.head_dim != 0
    &&& shape.head_dim <= 256
    &&& shape.head_dim % 2 == 0
    &&& positive_bits(shape.theta)
    &&& shape.section_height + shape.section_width <= shape.head_dim / 2
    &&& position_ids.len >= qkv.dims@[0] * 3 * 4
    &&& bias_matches(bias, DType::BF16, shape.width() as usize)
}

/// Whether existing caches have the extents of the projection and room for its
/// rows.
pub open spec fn cache_matches(tokens: usize, shape: MropeShape, k: Tensor, v: Tensor, offset: usize) -> bool {
    let dims = seq![shape.cache_tokens, shape.kv_heads, shape.head_dim];
    &&& k.dtype == DType::BF16
    &&& v.dtype == DType::BF16
    &&& k.dims@ == dims
    &&& v.dims@ == dims
    &&& offset + tokens <= shape.cache_tokens
}

pub open spec fn mrope_problem(
    qkv: Tensor,
    bias: Option<&Tensor>,
    position_ids: CudaBuffer,
    shape: MropeShape,
    caches: Option<(&Tensor, &Tensor, usize)>,
) -> Option<Error> {
    match matrix_extents(qkv, "GQA QKV mRoPE") {
        Err(error) => Some(error),
        Ok((tokens, _)) => if !mrope_matches(qkv, bias, position_ids, shape) {
            Some(Error::Other(MROPE_MISMATCH))
        } else {
            first_of(
                output_problem(DType::BF16, tokens as int, shape.q_heads * shape.head_dim),
                first_of(
                    match caches {
                        Some((k, v, offset)) => if !cache_matches(tokens, shape, *k, *v, offset) {
                            Some(Error::Other(MROPE_CACHE))
                        } else {
                            first_of(pointer_problem(*k), pointer_problem(*v))
                        },
                        None => first_of(
                            output_problem(
                                DType::BF16,
                                shape.cache_tokens * shape.kv_heads,
                                shape.head_dim as int,
                            ),
                            if tokens > shape.cache_tokens {
                                Some(Error::Other(MROPE_SHORT))
                            } else {
                                None
                            },
                        ),
                    },
                    first_of(pointer_problem(qkv), optional_problem(bias)),
                ),
            )
        },
    }
}

pub open spec fn mrope_launch(
    qkv: Tensor,
    bias: Option<&Tensor>,
    position_ids: CudaBuffer,
    shape: MropeShape,
    caches: Option<(&Tensor, &Tensor, usize)>,
) -> MropeLaunch {
    MropeLaunch {
        half: qkv.dtype == DType::F16,
        qkv: qkv.buffer.address,
        bias: optional_address(bias),
        position_ids: position_ids.address,
        tokens: qkv.dims@[0] as i32,
        q_heads: shape.q_heads as i32,
        kv_heads: shape.kv_heads as i32,
        head_dim: shape.head_dim as i32,
        theta: shape.theta,
        section_height: shape.section_height as i32,
        section_width: shape.section_width as i32,
        cache_offset: match caches {
            Some((_, _, offset)) => offset as i32,
            None => 0i32,
        },
        query: matrix_output(
            DType::BF16,
            qkv.dims@[0],
            (shape.q_heads * shape.head_dim) as usize,
        ),
        target: match caches {
            Some((k, v, _)) => CacheTarget::Existing {
                key: k.buffer.address,
                value: v.buffer.address,
            },
            None => CacheTarget::Owned {
                rows: (shape.cache_tokens * shape.kv_heads) as usize,
                cols: shape.head_dim,
                bytes: (shape.cache_tokens * shape.kv_heads * shape.head_dim * 2) as usize,
            },
        },
    }
}

/// Split a grouped-query projection, rotate queries and keys by multimodal
/// positions, and write keys and values to new tensors or to rows of existing
/// caches.
pub fn split_gqa_qkv_mrope_cache_bf16(
    qkv: &Tensor,
    bias: Option<&Tensor>,
    position_ids: &CudaBuffer,
    shape: &MropeShape,
    caches: Option<(&Tensor, &Tensor, usize)>,
) -> (result: Result<MropeLaunch, Error>)
    requires
        shape.fits(),
        qkv.dims@.len() == 2 ==> qkv.dims@[0] * 3 <= usize::MAX && qkv.dims@[0] * 3 * 4
            <= usize::MAX,
        caches is None ==> shape.cache_tokens * shape.kv_heads <= usize::MAX,
        caches matches Some((_, _, offset)) ==> qkv.dims@.len() == 2 ==> offset + qkv.dims@[0]
            <= usize::MAX,
    ensures
        result == unless(
            mrope_problem(*qkv, bias, *position_ids, *shape, caches),
            mrope_launch(*qkv, bias, *position_ids, *shape, caches),
        ),
{
    let (tokens, width) = matrix_shape(qkv, "GQA QKV mRoPE")?;
    let q_width: usize = shape.q_heads * shape.head_dim;
    let kv_width: usize = shape.kv_heads * shape.head_dim;
    let expected: usize = q_width + 2 * kv_width;
    if !(qkv.dtype == DType::BF16 || qkv.dtype == DType::F16) || width != expected || shape.q_heads
        == 0 || shape.kv_heads == 0 || shape.q_heads % shape.kv_heads != 0 || shape.head_dim == 0
        || shape.head_dim > 256 || shape.head_dim % 2 != 0 || !is_positive(shape.theta)
        || shape.section_height + shape.section_width > shape.head_dim / 2 || position_ids.len
        < tokens * 3 * 4 || !check_bias(bias, DType::BF16, expected) {
        return Err(Error::Other(MROPE_MISMATCH));
    }
    let query = allocate_matrix(DType::BF16, tokens, q_width)?;
    let (target, offset) = match caches {
        Some((k, v, offset)) => {
            let dims: Vec<usize> = vec![shape.cache_tokens, shape.kv_heads, shape.head_dim];
            assert(dims@ =~= seq![shape.cache_tokens, shape.kv_heads, shape.head_dim]);
            if k.dtype != DType::BF16 || v.dtype != DType::BF16 || !same_dims(&k.dims, &dims)
                || !same_dims(&v.dims, &dims) || offset + tokens > shape.cache_tokens {
                return Err(Error::Other(MROPE_CACHE));
            }
            let key: usize = gpu_ptr(k)?;
            let value: usize = gpu_ptr(v)?;
            (CacheTarget::Existing { key, value }, offset)
        },
        None => {
            let owned = allocate_matrix(
                DType::BF16,
                shape.cache_tokens * shape.kv_heads,
                shape.head_dim,
            )?;
            if tokens > shape.cache_tokens {
                return Err(Error::Other(MROPE_SHORT));
            }
            (CacheTarget::Owned { rows: owned.rows, cols: owned.cols, bytes: owned.bytes }, 0usize)
        },
    };
    let source: usize = gpu_ptr(qkv)?;
    let values: usize = optional_ptr(bias)?;
    Ok(
        MropeLaunch {
            half: qkv.dtype == DType::F16,
            qkv: source,
            bias: values,
            position_ids: position_ids.address,
            tokens: tokens as i32,
            q_heads: shape.q_heads as i32,
            kv_heads: shape.kv_heads as i32,
            head_dim: shape.head_dim as i32,
            theta: shape.theta,
            section_height: shape.section_height as i32,
            section_width: shape.section_width as i32,
            cache_offset: offset as i32,
            query,
            target,
        },
    )
}

/// The rows that a split writes lie inside the cache.
pub proof fn lemma_cache_rows_are_inside(
    qkv: Tensor,
    bias: Option<&Tensor>,
    position_ids: CudaBuffer,
    shape: MropeShape,
    caches: Option<(&Tensor, &Tensor, usize)>,
)
    requires
        mrope_problem(qkv, bias, position_ids, shape, caches) is None,
        shape.cache_tokens <= i32::MAX,
    ensures
        ({
            let launch = mrope_launch(qkv, bias, position_ids, shape, caches);
            0 <= launch.cache_offset && launch.cache_offset + launch.tokens <= shape.cache_tokens
        }),
{
}

/// `apxinf_static_vision_qkv_rope_*`. Three BF16 outputs of the given size are
/// allocated, each `[tokens, heads, head_dim]`.
#[derive(Clone, Copy, Debug, PartialEq, Eq, Structural)]
pub struct VisionRopeLaunch {
    /// The projection is FP16.
    pub half: bool,
    pub qkv: usize,
    pub bias: usize,
    pub position_ids: usize,
    pub tokens: i32,
    pub heads: i32,
    pub head_dim: i32,
    pub theta: u32,
    pub output: MatrixOutput,
}

pub const VISION_ROPE: &'static str = "static inference BF16 vision QKV RoPE shape mismatch";

pub open spec fn vision_rope_matches(
    qkv: Tensor,
    bias: Option<&Tensor>,
    position_ids: CudaBuffer,
    heads: usize,
    head_dim: usize,
    theta: u32,
) -> bool {
    &&& qkv.dtype == DType::BF16 || qkv.dtype == DType::F16
    &&& qkv.dims@[1] == 3 * (heads * head_dim)
    &&& heads != 0
    &&& head_dim != 0
    &&& head_dim <= 256
    &&& head_dim % 4 == 0
    &&& positive_bits(theta)
    &&& position_ids.len >= qkv.dims@[0] * 2 * 4
    &&& bias_matches(bias, DType::BF16, (3 * (heads * head_dim)) as usize)
}

pub open spec fn vision_rope_problem(
    qkv: Tensor,
    bias: Option<&Tensor>,
    position_ids: CudaBuffer,
    heads: usize,
    head_dim: usize,
    theta: u32,
) -> Option<Error> {
    match matrix_extents(qkv, "vision QKV RoPE") {
        Err(error) => Some(error),
        Ok((tokens, _)) => if !vision_rope_matches(qkv, bias, position_ids, heads, head_dim, theta) {
            Some(Error::Other(VISION_ROPE))
        } else {
            first_of(
                output_problem(DType::BF16, tokens as int, heads * head_dim),
                first_of(pointer_problem(qkv), optional_problem(bias)),
            )
        },
    }
}

/// Split a vision projection and rotate queries and keys by two-dimensional
/// positions.
pub fn split_vision_qkv_rope_bf16(
    qkv: &Tensor,
    bias: Option<&Tensor>,
    position_ids: &CudaBuffer,
    heads: usize,
    head_dim: usize,
    theta: u32,
) -> (result: Result<VisionRopeLaunch, Error>)
    requires
        3 * (heads * head_dim) <= usize::MAX,
        qkv.dims@.len() == 2 ==> qkv.dims@[0] * 2 * 4 <= usize::MAX,
    ensures
        result == unless(
            vision_rope_problem(*qkv, bias, *position_ids, heads, head_dim, theta),
            VisionRopeLaunch {
                half: qkv.dtype == DType::F16,
                qkv: qkv.buffer.address,
                bias: optional_address(bias),
                position_ids: position_ids.address,
                tokens: qkv.dims@[0] as i32,
                heads: heads as i32,
                head_dim: head_dim as i32,
                theta,
                output: matrix_output(DType::BF16, qkv.dims@[0], (heads * head_dim) as usize),
            },
        ),
{
    let (tokens, width) = matrix_shape(qkv, "vision QKV RoPE")?;
    let projection: usize = heads * head_dim;
    let expected: usize = 3 * projection;
    if !(qkv.dtype == DType::BF16 || qkv.dtype == DType::F16) || width != expected || heads == 0
        || head_dim == 0 || head_dim > 256 || head_dim % 4 != 0 || !is_positive(theta)
        || position_ids.len < tokens * 2 * 4 || !check_bias(bias, DType::BF16, expected) {
        return Err(Error::Other(VISION_ROPE));
    }
    let output = allocate_matrix(DType::BF16, tokens, projection)?;
    let source: usize = gpu_ptr(qkv)?;
    let values: usize = optional_ptr(bias)?;
    Ok(
        VisionRopeLaunch {
            half: qkv.dtype == DType::F16,
            qkv: source,
            bias: values,
            position_ids: position_ids.address,
            tokens: tokens as i32,
            heads: heads as i32,
            head_dim: head_dim as i32,
            theta,
            output,
        },
    )
}

} // verus!
