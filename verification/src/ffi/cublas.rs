//! Enumerations and status codes of cuBLAS.

use crate::text::{owned, push_signed, signed_decimal};
use vstd::prelude::*;

verus! {

pub const CUBLAS_STATUS_SUCCESS: i32 = 0;

#[allow(non_camel_case_types)]
#[derive(Debug, Clone, Copy, PartialEq, Eq, Structural)]
pub enum cublasOperation_t {
    CUBLAS_OP_N,
    CUBLAS_OP_T,
}

#[allow(non_camel_case_types)]
#[derive(Debug, Clone, Copy, PartialEq, Eq, Structural)]
pub enum cudaDataType_t {
    CUDA_R_32F,
    CUDA_R_16F,
    CUDA_R_8I,
    CUDA_R_32I,
    CUDA_R_16BF,
}

#[allow(non_camel_case_types)]
#[derive(Debug, Clone, Copy, PartialEq, Eq, Structural)]
pub enum cublasComputeType_t {
    CUBLAS_COMPUTE_32F,
    CUBLAS_COMPUTE_32I,
}

impl cublasOperation_t {
    /// The number that stands for the operation in the native interface.
    pub fn value(self) -> (value: i32)
        ensures
            value == match self {
                cublasOperation_t::CUBLAS_OP_N => 0i32,
                cublasOperation_t::CUBLAS_OP_T => 1,
            },
    {
        match self {
            cublasOperation_t::CUBLAS_OP_N => 0,
            cublasOperation_t::CUBLAS_OP_T => 1,
        }
    }
}

impl cudaDataType_t {
    /// The number that stands for the type in the native interface.
    pub fn value(self) -> (value: i32)
        ensures
            value == match self {
                cudaDataType_t::CUDA_R_32F => 0i32,
                cudaDataType_t::CUDA_R_16F => 2,
                cudaDataType_t::CUDA_R_8I => 3,
                cudaDataType_t::CUDA_R_32I => 10,
                cudaDataType_t::CUDA_R_16BF => 14,
            },
    {
        match self {
            cudaDataType_t::CUDA_R_32F => 0,
            cudaDataType_t::CUDA_R_16F => 2,
            cudaDataType_t::CUDA_R_8I => 3,
            cudaDataType_t::CUDA_R_32I => 10,
            cudaDataType_t::CUDA_R_16BF => 14,
        }
    }
}

impl cublasComputeType_t {
    /// The number that stands for the type in the native interface.
    pub fn value(self) -> (value: i32)
        ensures
            value == match self {
                cublasComputeType_t::CUBLAS_COMPUTE_32F => 68i32,
                cublasComputeType_t::CUBLAS_COMPUTE_32I => 72,
            },
    {
        match self {
            cublasComputeType_t::CUBLAS_COMPUTE_32F => 68,
            cublasComputeType_t::CUBLAS_COMPUTE_32I => 72,
        }
    }
}

/// Turn a cuBLAS status into a result.
pub fn check_cublas(status: i32) -> (result: Result<(), String>)
    ensures
        result is Ok <==> status == CUBLAS_STATUS_SUCCESS,
        result matches Err(text) ==> text@ == "cuBLAS error: status "@ + signed_decimal(
            status as int,
        ),
{
    if status == CUBLAS_STATUS_SUCCESS {
        Ok(())
    } else {
        let mut text = owned("cuBLAS error: status ");
        push_signed(&mut text, status);
        Err(text)
    }
}

} // verus!
