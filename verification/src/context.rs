//! CUDA device and stream context.

use crate::cublas::CublasHandle;
use crate::device_caps::CudaDeviceCaps;
use crate::kernels::gemm::plan::{GemmPlanCache, PreparedGemmPlan};
use crate::text::{
    decimal, is_digit, lemma_decimal_digits, lemma_decimal_injective, owned, push_signed,
    signed_decimal,
};
use crate::tuning::{GemmTuningKey, TuningSession};
use vstd::prelude::*;

verus! {

/// CUDA libraries whose versions constrain persisted tuning results.
#[derive(Clone, Debug, PartialEq, Eq)]
pub struct CudaLibraryVersions {
    pub cuda: String,
    pub cublas: String,
}

impl CudaLibraryVersions {
    /// The versions that the CUDA runtime and cuBLAS report of themselves.
    pub fn from_reported(cuda: i32, cublas: i32) -> (result: Result<Self, String>)
        ensures
            result is Ok <==> cuda > 0 && cublas > 0,
            result matches Ok(versions) ==> versions.cuda@ == cuda_version(cuda as int)
                && versions.cublas@ == cublas_version(cublas as int),
            result matches Err(text) ==> text@ == (if cuda <= 0 {
                "CUDA runtime returned invalid version "@ + signed_decimal(cuda as int)
            } else {
                "cuBLAS returned invalid version "@ + signed_decimal(cublas as int)
            }),
    {
        let cuda = match format_cuda_runtime_version(cuda) {
            Ok(text) => text,
            Err(text) => {
                return Err(text);
            },
        };
        let cublas = match format_cublas_version(cublas) {
            Ok(text) => text,
            Err(text) => {
                return Err(text);
            },
        };
        Ok(CudaLibraryVersions { cuda, cublas })
    }
}

/// A CUDA stream, as an opaque number.
#[derive(Debug)]
pub struct CudaStream {
    pub handle: usize,
}

/// The CUDA device, stream and cuBLAS handle, with what was tuned for them.
#[derive(Debug)]
pub struct CudaContext {
    pub device_id: usize,
    pub stream: CudaStream,
    pub cublas: CublasHandle,
    pub caps: CudaDeviceCaps,
    pub library_versions: CudaLibraryVersions,
    pub tuning: TuningSession,
    pub gemm_plans: GemmPlanCache,
}

impl CudaContext {
    /// A context without prepared plans.
    pub fn new(
        device_id: usize,
        stream: CudaStream,
        cublas: CublasHandle,
        caps: CudaDeviceCaps,
        library_versions: CudaLibraryVersions,
        tuning: TuningSession,
    ) -> (ctx: Self)
        ensures
            ctx.device_id == device_id,
            ctx.stream == stream,
            ctx.cublas == cublas,
            ctx.caps == caps,
            ctx.library_versions == library_versions,
            ctx.tuning == tuning,
            ctx.gemm_plans.wf(),
            ctx.gemm_plans@ == Map::<GemmTuningKey, PreparedGemmPlan>::empty(),
    {
        CudaContext {
            device_id,
            stream,
            cublas,
            caps,
            library_versions,
            tuning,
            gemm_plans: GemmPlanCache::new(),
        }
    }

    pub fn device_id(&self) -> (device: usize)
        ensures
            device == self.device_id,
    {
        self.device_id
    }

    pub fn stream(&self) -> (stream: &CudaStream)
        ensures
            *stream == self.stream,
    {
        &self.stream
    }

    pub fn cublas(&self) -> (cublas: &CublasHandle)
        ensures
            *cublas == self.cublas,
    {
        &self.cublas
    }

    pub fn caps(&self) -> (caps: &CudaDeviceCaps)
        ensures
            *caps == self.caps,
    {
        &self.caps
    }

    pub fn library_versions(&self) -> (versions: &CudaLibraryVersions)
        ensures
            *versions == self.library_versions,
    {
        &self.library_versions
    }

    /// The tuning state that plans are resolved from.
    pub fn tuning(&self) -> (tuning: &TuningSession)
        ensures
            *tuning == self.tuning,
    {
        &self.tuning
    }

    /// Install the mode and tactic snapshot before model prepare. Plans made
    /// from the previous snapshot are forgotten.
    pub fn install_tuning(&mut self, session: TuningSession)
        ensures
            final(self).tuning == session,
            final(self).gemm_plans.wf(),
            final(self).gemm_plans@ == Map::<GemmTuningKey, PreparedGemmPlan>::empty(),
            final(self).device_id == old(self).device_id,
            final(self).stream == old(self).stream,
            final(self).cublas == old(self).cublas,
            final(self).caps == old(self).caps,
            final(self).library_versions == old(self).library_versions,
    {
        self.tuning = session;
        self.gemm_plans.clear();
    }

    pub fn gemm_plans(&self) -> (plans: &GemmPlanCache)
        ensures
            *plans == self.gemm_plans,
    {
        &self.gemm_plans
    }
}

/// `major.minor`, and `.patch` where the patch is not zero.
pub open spec fn dotted_version(major: int, minor: int, patch: int) -> Seq<char> {
    let short = signed_decimal(major) + seq!['.'] + signed_decimal(minor);
    if patch == 0 {
        short
    } else {
        short + seq!['.'] + signed_decimal(patch)
    }
}

/// The CUDA runtime counts `1000 * major + 10 * minor + patch`.
pub open spec fn cuda_version(version: int) -> Seq<char> {
    dotted_version(version / 1000, version % 1000 / 10, version % 10)
}

/// cuBLAS counts `10000 * major + 100 * minor + patch`, and
/// `1000 * major + 100 * minor + patch` in releases before that.
pub open spec fn cublas_version(version: int) -> Seq<char> {
    if version >= 10_000 {
        dotted_version(version / 10_000, version % 10_000 / 100, version % 100)
    } else {
        dotted_version(version / 1000, version % 1000 / 100, version % 100)
    }
}

proof fn lemma_first_dot(a: Seq<char>, b: Seq<char>, c: Seq<char>, d: Seq<char>)
    requires
        forall|i: int| 0 <= i < a.len() ==> is_digit(#[trigger] a[i]),
        forall|i: int| 0 <= i < b.len() ==> is_digit(#[trigger] b[i]),
        a + seq!['.'] + c == b + seq!['.'] + d,
    ensures
        a == b,
        c == d,
{
    let s = a + seq!['.'] + c;
    let t = b + seq!['.'] + d;
    assert(s[a.len() as int] == '.' && t[b.len() as int] == '.');
    if a.len() < b.len() {
        assert(is_digit(b[a.len() as int]) && t[a.len() as int] == b[a.len() as int]);
    } else if b.len() < a.len() {
        assert(is_digit(a[b.len() as int]) && s[b.len() as int] == a[b.len() as int]);
    }
    assert(a =~= s.take(a.len() as int) && b =~= t.take(b.len() as int));
    assert(c =~= s.skip(a.len() as int + 1) && d =~= t.skip(b.len() as int + 1));
}

/// A dotted version tells its three numbers.
pub proof fn lemma_dotted_version_is_injective(
    major: int,
    minor: int,
    patch: int,
    other_major: int,
    other_minor: int,
    other_patch: int,
)
    requires
        major >= 0 && minor >= 0 && patch >= 0,
        other_major >= 0 && other_minor >= 0 && other_patch >= 0,
        dotted_version(major, minor, patch) == dotted_version(
            other_major,
            other_minor,
            other_patch,
        ),
    ensures
        major == other_major,
        minor == other_minor,
        patch == other_patch,
{
    let (a, b, c) = (decimal(major as nat), decimal(minor as nat), decimal(patch as nat));
    let (x, y, z) = (
        decimal(other_major as nat),
        decimal(other_minor as nat),
        decimal(other_patch as nat),
    );
    lemma_decimal_digits(major as nat);
    lemma_decimal_digits(minor as nat);
    lemma_decimal_digits(other_major as nat);
    lemma_decimal_digits(other_minor as nat);
    let rest = if patch == 0 {
        b
    } else {
        b + seq!['.'] + c
    };
    let other_rest = if other_patch == 0 {
        y
    } else {
        y + seq!['.'] + z
    };
    assert(dotted_version(major, minor, patch) =~= a + seq!['.'] + rest);
    assert(dotted_version(other_major, other_minor, other_patch) =~= x + seq!['.'] + other_rest);
    lemma_first_dot(a, x, rest, other_rest);
    lemma_decimal_injective(major as nat, other_major as nat);
    if patch != 0 && other_patch != 0 {
        lemma_first_dot(b, y, c, z);
        lemma_decimal_injective(patch as nat, other_patch as nat);
    } else if patch != 0 {
        assert(rest[b.len() as int] == '.' && is_digit(y[b.len() as int]));
    } else if other_patch != 0 {
        assert(other_rest[y.len() as int] == '.' && is_digit(b[y.len() as int]));
    }
    lemma_decimal_injective(minor as nat, other_minor as nat);
}

/// A number is told by the parts that a version is cut into.
proof fn lemma_version_parts(version: int, major_unit: int, minor_unit: int)
    requires
        minor_unit > 0,
        major_unit > 0,
        major_unit % minor_unit == 0,
    ensures
        version == version / major_unit * major_unit + version % major_unit / minor_unit * minor_unit
            + version % minor_unit,
{
    let groups = major_unit / minor_unit;
    vstd::arithmetic::div_mod::lemma_fundamental_div_mod(major_unit, minor_unit);
    vstd::arithmetic::div_mod::lemma_fundamental_div_mod(version, major_unit);
    vstd::arithmetic::div_mod::lemma_fundamental_div_mod(version % major_unit, minor_unit);
    assert(groups > 0) by (nonlinear_arith)
        requires
            major_unit == minor_unit * groups,
            major_unit > 0,
            minor_unit > 0,
    ;
    vstd::arithmetic::div_mod::lemma_mod_mod(version, minor_unit, groups);
    let (q, r) = (version / major_unit, version % major_unit / minor_unit);
    assert(major_unit * q == q * major_unit && minor_unit * r == r * minor_unit) by (nonlinear_arith);
}

/// Two CUDA runtime versions never share a text.
pub proof fn lemma_cuda_versions_differ(version: int, other: int)
    requires
        version > 0,
        other > 0,
        version != other,
    ensures
        cuda_version(version) != cuda_version(other),
{
    if cuda_version(version) == cuda_version(other) {
        lemma_version_parts(version, 1000, 10);
        lemma_version_parts(other, 1000, 10);
        lemma_dotted_version_is_injective(
            version / 1000,
            version % 1000 / 10,
            version % 10,
            other / 1000,
            other % 1000 / 10,
            other % 10,
        );
    }
}

/// Two cuBLAS versions that count alike never share a text.
pub proof fn lemma_cublas_versions_differ(version: int, other: int)
    requires
        version > 0,
        other > 0,
        version != other,
        version >= 10_000 <==> other >= 10_000,
    ensures
        cublas_version(version) != cublas_version(other),
{
    if cublas_version(version) == cublas_version(other) {
        if version >= 10_000 {
            lemma_version_parts(version, 10_000, 100);
            lemma_version_parts(other, 10_000, 100);
            lemma_dotted_version_is_injective(
                version / 10_000,
                version % 10_000 / 100,
                version % 100,
                other / 10_000,
                other % 10_000 / 100,
                other % 100,
            );
        } else {
            lemma_version_parts(version, 1000, 100);
            lemma_version_parts(other, 1000, 100);
            lemma_dotted_version_is_injective(
                version / 1000,
                version % 1000 / 100,
                version % 100,
                other / 1000,
                other % 1000 / 100,
                other % 100,
            );
        }
    }
}

pub fn format_cuda_runtime_version(version: i32) -> (result: Result<String, String>)
    ensures
        result is Ok <==> version > 0,
        result matches Ok(text) ==> text@ == cuda_version(version as int),
        result matches Err(text) ==> text@ == "CUDA runtime returned invalid version "@
            + signed_decimal(version as int),
{
    if version <= 0 {
        let mut text = owned("CUDA runtime returned invalid version ");
        push_signed(&mut text, version);
        return Err(text);
    }
    let major: i32 = version / 1000;
    let minor: i32 = (version % 1000) / 10;
    let patch: i32 = version % 10;
    Ok(format_version(major, minor, patch))
}

pub fn format_cublas_version(version: i32) -> (result: Result<String, String>)
    ensures
        result is Ok <==> version > 0,
        result matches Ok(text) ==> text@ == cublas_version(version as int),
        result matches Err(text) ==> text@ == "cuBLAS returned invalid version "@ + signed_decimal(
            version as int,
        ),
{
    if version <= 0 {
        let mut text = owned("cuBLAS returned invalid version ");
        push_signed(&mut text, version);
        return Err(text);
    }
    if version >= 10_000 {
        Ok(format_version(version / 10_000, (version % 10_000) / 100, version % 100))
    } else {
        Ok(format_version(version / 1000, (version % 1000) / 100, version % 100))
    }
}

pub fn format_version(major: i32, minor: i32, patch: i32) -> (text: String)
    ensures
        text@ == dotted_version(major as int, minor as int, patch as int),
{
    let mut text = String::new();
    push_signed(&mut text, major);
    text.push('.');
    push_signed(&mut text, minor);
    assert(text@ =~= signed_decimal(major as int) + seq!['.'] + signed_decimal(minor as int));
    if patch != 0 {
        text.push('.');
        push_signed(&mut text, patch);
    }
    assert(text@ =~= dotted_version(major as int, minor as int, patch as int));
    text
}

} // verus!
