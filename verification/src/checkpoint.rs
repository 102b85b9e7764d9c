//! Index arithmetic and shape checks of DeepSeek-V4 checkpoint loading:
//! tensor-parallel matrix shards, where each dequantized element and its
//! block scale are read from, little-endian `i64` tensors, the
//! hyper-connection stream layout, and the switches read at load time.

use std::ops::Range;
use vstd::prelude::*;

use crate::arith::{lemma_div_block, lemma_div_mod_of_parts, lemma_mul_le};
use crate::text::{chars_eq, ends_with, ends_with_chars, push_str, slice_to_vec, str_chars, string_from_chars};

verus! {

/// Element types of checkpoint tensors the loader distinguishes.
#[derive(Clone, Copy, Debug, PartialEq, Eq, Structural)]
pub enum Dtype {
    Bf16,
    F32,
    /// FP8 E4M3, block-scaled.
    F8E4M3,
    /// FP8 E8M0 (a power of two), used for block scales.
    F8E8M0,
    /// Two FP4 E2M1 values packed per byte, block-scaled.
    I8,
    I64,
    /// Any other element type.
    Other,
}

/// Which dimension of a weight matrix a tensor-parallel rank splits.
#[derive(Clone, Copy, Debug, PartialEq, Eq)]
pub enum TpShardAxis {
    /// Column-parallel layers split the output rows.
    Column,
    /// Row-parallel layers split the input columns.
    Row,
}

/// The slice of a matrix dimension one tensor-parallel rank loads.
#[derive(Debug, PartialEq, Eq)]
pub struct TpLoadContext {
    pub axis: TpShardAxis,
    pub range: Range<usize>,
    pub total: usize,
}

/// Which part of a matrix a rank loads.
#[derive(Debug, PartialEq, Eq)]
pub enum MatrixShard {
    Full,
    Rows { range: Range<usize>, total: usize },
    Cols { range: Range<usize>, total: usize },
}

/// Why a checkpoint tensor could not be read.
#[derive(Clone, Debug, PartialEq, Eq)]
pub enum CheckpointError {
    RowShardTotalMismatch { total: usize, rows: usize },
    RowShardExceeds { start: usize, end: usize, rows: usize },
    ColShardTotalMismatch { total: usize, cols: usize },
    ColShardExceeds { start: usize, end: usize, cols: usize },
    NotQuantizedWeightName,
    ScaleNotMatrix { dims: usize },
    EmptyScale,
    /// A quantized element was read without its block-scale tensor.
    MissingScale,
    /// A matrix tensor whose shape does not have two dimensions.
    NotMatrix { dims: usize },
    /// A vector tensor whose shape does not have one dimension.
    NotVector { dims: usize },
    ReadOutOfRange { dtype: Dtype, index: usize },
    UnsupportedMatrixDtype(Dtype),
    UnsupportedScalarDtype(Dtype),
    NotI64 { dtype: Dtype },
    UnalignedI64 { byte_len: usize },
    HiddenDimMismatch { hidden_dim: usize, hidden_size: usize },
    ZeroHcMult,
    HeadTokenOutOfRange { token_idx: usize, seq_len: usize },
    HeadStreamDimMismatch { stream_dim: usize, hidden_size: usize, hc_mult: usize },
    HeadMixShape { rows: usize, cols: usize, hc_mult: usize, stream_dim: usize },
    HeadBaseScaleTooShort { base: usize, scale: usize, hc_mult: usize },
    EmbedShape { rows: usize, cols: usize, vocab_size: usize, hidden_size: usize },
    HeadShape { rows: usize, cols: usize, vocab_size: usize, hidden_size: usize },
    NormLen { len: usize, hidden_size: usize },
    NoSlidingWindowLayers { csa_layers: usize, hca_layers: usize },
    EmptyVocab,
    ExpertCountMismatch { ep_experts: usize, routed_experts: usize },
    InvalidSwitch(String),
    ReferenceLogitsLen { len: usize, vocab_size: usize },
}

/// The rows of a `rows`-row matrix that `shard` loads: a row shard must
/// have been cut from a matrix of that many rows and lie inside it; other
/// shards load every row.
pub open spec fn shard_rows_spec(shard: MatrixShard, rows: usize) -> Result<Range<usize>, CheckpointError> {
    match shard {
        MatrixShard::Rows { range, total } => if total != rows {
            Err(CheckpointError::RowShardTotalMismatch { total, rows })
        } else if range.end > rows {
            Err(CheckpointError::RowShardExceeds { start: range.start, end: range.end, rows })
        } else {
            Ok(range)
        },
        _ => Ok(Range { start: 0, end: rows }),
    }
}

/// The columns of a `cols`-column matrix that `shard` loads.
pub open spec fn shard_cols_spec(shard: MatrixShard, cols: usize) -> Result<Range<usize>, CheckpointError> {
    match shard {
        MatrixShard::Cols { range, total } => if total != cols {
            Err(CheckpointError::ColShardTotalMismatch { total, cols })
        } else if range.end > cols {
            Err(CheckpointError::ColShardExceeds { start: range.start, end: range.end, cols })
        } else {
            Ok(range)
        },
        _ => Ok(Range { start: 0, end: cols }),
    }
}

impl MatrixShard {
    /// The shard a tensor-parallel context asks for: column-parallel layers
    /// load a row range, row-parallel layers a column range, and without a
    /// context the full matrix.
    pub fn from_tp(tp: Option<&TpLoadContext>) -> (r: MatrixShard)
        ensures
            r == match tp {
                None => MatrixShard::Full,
                Some(t) => match t.axis {
                    TpShardAxis::Column => MatrixShard::Rows { range: t.range, total: t.total },
                    TpShardAxis::Row => MatrixShard::Cols { range: t.range, total: t.total },
                },
            },
    {
        match tp {
            None => MatrixShard::Full,
            Some(t) => match t.axis {
                TpShardAxis::Column => MatrixShard::Rows {
                    range: Range { start: t.range.start, end: t.range.end },
                    total: t.total,
                },
                TpShardAxis::Row => MatrixShard::Cols {
                    range: Range { start: t.range.start, end: t.range.end },
                    total: t.total,
                },
            },
        }
    }

    /// The rows of a `rows`-row matrix this shard loads.
    pub fn row_range(&self, rows: usize) -> (r: Result<Range<usize>, CheckpointError>)
        ensures
            r == shard_rows_spec(*self, rows),
    {
        match self {
            MatrixShard::Rows { range, total } => {
                if *total != rows {
                    return Err(CheckpointError::RowShardTotalMismatch { total: *total, rows });
                }
                if range.end > rows {
                    return Err(
                        CheckpointError::RowShardExceeds { start: range.start, end: range.end, rows },
                    );
                }
                Ok(Range { start: range.start, end: range.end })
            },
            _ => Ok(Range { start: 0, end: rows }),
        }
    }

    /// The columns of a `cols`-column matrix this shard loads.
    pub fn col_range(&self, cols: usize) -> (r: Result<Range<usize>, CheckpointError>)
        ensures
            r == shard_cols_spec(*self, cols),
    {
        match self {
            MatrixShard::Cols { range, total } => {
                if *total != cols {
                    return Err(CheckpointError::ColShardTotalMismatch { total: *total, cols });
                }
                if range.end > cols {
                    return Err(
                        CheckpointError::ColShardExceeds { start: range.start, end: range.end, cols },
                    );
                }
                Ok(Range { start: range.start, end: range.end })
            },
            _ => Ok(Range { start: 0, end: cols }),
        }
    }
}

/// The logical column count of a matrix stored with `physical_cols`
/// columns: packed FP4 holds two values per byte.
pub fn logical_cols(dtype: Dtype, physical_cols: usize) -> (r: usize)
    requires
        dtype == Dtype::I8 ==> physical_cols * 2 <= usize::MAX,
    ensures
        r == if dtype == Dtype::I8 {
            physical_cols * 2
        } else {
            physical_cols as int
        },
{
    match dtype {
        Dtype::I8 => physical_cols * 2,
        _ => physical_cols,
    }
}

/// The block-scale tensor of a quantized weight `<prefix>.weight` is
/// `<prefix>.scale`.
pub open spec fn scale_name_spec(name: Seq<char>) -> Option<Seq<char>> {
    if ends_with(name, ".weight"@) {
        Some(name.subrange(0, name.len() - 7) + ".scale"@)
    } else {
        None
    }
}

/// The block-scale tensor name of a quantized weight; only `.weight`
/// tensors have one.
pub fn scale_tensor_name(name: &str) -> (r: Result<String, CheckpointError>)
    ensures
        match scale_name_spec(name@) {
            Some(s) => r matches Ok(v) && v@ == s,
            None => r == Err::<String, CheckpointError>(CheckpointError::NotQuantizedWeightName),
        },
{
    let chars = str_chars(name);
    let suffix = str_chars(".weight");
    proof {
        reveal_strlit(".weight");
    }
    if !ends_with_chars(chars.as_slice(), suffix.as_slice()) {
        return Err(CheckpointError::NotQuantizedWeightName);
    }
    let mut out = slice_to_vec(chars.as_slice(), 0, chars.len() - 7);
    push_str(&mut out, ".scale");
    Ok(string_from_chars(out.as_slice()))
}

/// `ceil(a / b)`.
pub open spec fn ceil_div(a: int, b: int) -> int {
    (a + b - 1) / b
}

/// The position, in a row-major `scale_rows x scale_cols` scale grid, of the
/// block holding element `(row, col)` of a `rows x cols` matrix: blocks are
/// `ceil(rows / scale_rows)` by `ceil(cols / scale_cols)` elements (at least
/// one), and indices past the last block clamp to it.
pub open spec fn block_scale_index_spec(
    scale_rows: int,
    scale_cols: int,
    row: int,
    col: int,
    rows: int,
    cols: int,
) -> int {
    let block_h = if ceil_div(rows, scale_rows) < 1 {
        1
    } else {
        ceil_div(rows, scale_rows)
    };
    let block_w = if ceil_div(cols, scale_cols) < 1 {
        1
    } else {
        ceil_div(cols, scale_cols)
    };
    let scale_row = if row / block_h < scale_rows - 1 {
        row / block_h
    } else {
        scale_rows - 1
    };
    let scale_col = if col / block_w < scale_cols - 1 {
        col / block_w
    } else {
        scale_cols - 1
    };
    scale_row * scale_cols + scale_col
}

/// The scale element of `(row, col)` in a block-scale tensor of shape
/// `scale_shape`; the scale must be a non-empty matrix.
pub fn block_scale_index(
    scale_shape: &[usize],
    row: usize,
    col: usize,
    rows: usize,
    cols: usize,
) -> (r: Result<usize, CheckpointError>)
    requires
        scale_shape@.len() == 2 ==> scale_shape@[0] * scale_shape@[1] <= usize::MAX,
    ensures
        scale_shape@.len() != 2 ==> r == Err::<usize, CheckpointError>(
            CheckpointError::ScaleNotMatrix { dims: scale_shape@.len() as usize },
        ),
        scale_shape@.len() == 2 && (scale_shape@[0] == 0 || scale_shape@[1] == 0) ==> r == Err::<
            usize,
            CheckpointError,
        >(CheckpointError::EmptyScale),
        scale_shape@.len() == 2 && scale_shape@[0] > 0 && scale_shape@[1] > 0 ==> (r matches Ok(i)
            && i == block_scale_index_spec(
            scale_shape@[0] as int,
            scale_shape@[1] as int,
            row as int,
            col as int,
            rows as int,
            cols as int,
        ) && i < scale_shape@[0] * scale_shape@[1]),
{
    if scale_shape.len() != 2 {
        return Err(CheckpointError::ScaleNotMatrix { dims: scale_shape.len() });
    }
    let scale_rows = scale_shape[0];
    let scale_cols = scale_shape[1];
    if !(scale_rows > 0 && scale_cols > 0) {
        return Err(CheckpointError::EmptyScale);
    }
    let block_h = max1(div_ceil(rows, scale_rows));
    let block_w = max1(div_ceil(cols, scale_cols));
    let scale_row = min_usize(row / block_h, scale_rows - 1);
    let scale_col = min_usize(col / block_w, scale_cols - 1);
    proof {
        lemma_mul_le(scale_row as int, (scale_rows - 1) as int, scale_cols as int);
        assert((scale_rows - 1) * scale_cols + scale_cols == scale_rows * scale_cols) by (nonlinear_arith);
    }
    Ok(scale_row * scale_cols + scale_col)
}

/// `usize::div_ceil`.
fn div_ceil(a: usize, b: usize) -> (r: usize)
    requires
        b > 0,
    ensures
        r == ceil_div(a as int, b as int),
{
    let q = a / b;
    if a % b == 0 {
        proof {
            vstd::arithmetic::div_mod::lemma_fundamental_div_mod(a as int, b as int);
            lemma_div_block(a + b - 1, b as int, q as int);
            assert(q * b <= a + b - 1 < q * b + b) by (nonlinear_arith)
                requires
                    a == b * q + a % b,
                    a % b == 0,
                    b > 0,
            ;
        }
        q
    } else {
        proof {
            vstd::arithmetic::div_mod::lemma_fundamental_div_mod(a as int, b as int);
            lemma_div_block(a + b - 1, b as int, q + 1);
            assert((q + 1) * b <= a + b - 1 < (q + 1) * b + b) by (nonlinear_arith)
                requires
                    a == b * q + a % b,
                    0 < a % b < b,
                    b > 0,
            ;
            assert(q + 1 <= a) by (nonlinear_arith)
                requires
                    a == b * q + a % b,
                    0 < a % b,
                    b > 0,
                    q >= 0,
            ;
        }
        q + 1
    }
}

fn max1(a: usize) -> (r: usize)
    ensures
        r == if a < 1 {
            1
        } else {
            a
        },
{
    if a < 1 {
        1
    } else {
        a
    }
}

fn min_usize(a: usize, b: usize) -> (r: usize)
    ensures
        r == if a < b {
            a
        } else {
            b
        },
{
    if a < b {
        a
    } else {
        b
    }
}

/// Width in bytes of a scalar of `dtype`, for the types read as scalars.
pub open spec fn scalar_width(dtype: Dtype) -> Option<nat> {
    match dtype {
        Dtype::Bf16 => Some(2),
        Dtype::F32 => Some(4),
        Dtype::F8E4M3 => Some(1),
        Dtype::F8E8M0 => Some(1),
        _ => None,
    }
}

/// The byte offset of scalar `index` of a tensor of `dtype` with `data_len`
/// bytes of data, or why it cannot be read.
pub open spec fn scalar_offset_spec(dtype: Dtype, data_len: usize, index: usize) -> Result<
    usize,
    CheckpointError,
> {
    match scalar_width(dtype) {
        None => Err(CheckpointError::UnsupportedScalarDtype(dtype)),
        Some(w) => if index * w + w <= data_len {
            Ok((index * w) as usize)
        } else {
            Err(CheckpointError::ReadOutOfRange { dtype, index })
        },
    }
}

/// The byte offset of scalar `index` of a tensor of `dtype` whose data is
/// `data_len` bytes long; the scalar must lie inside the data.
pub fn scalar_offset(dtype: Dtype, data_len: usize, index: usize) -> (r: Result<usize, CheckpointError>)
    ensures
        r == scalar_offset_spec(dtype, data_len, index),
{
    let width: usize = match dtype {
        Dtype::Bf16 => 2,
        Dtype::F32 => 4,
        Dtype::F8E4M3 => 1,
        Dtype::F8E8M0 => 1,
        _ => {
            return Err(CheckpointError::UnsupportedScalarDtype(dtype));
        },
    };
    if index > (data_len / width) {
        proof {
            assert(index * width + width > data_len) by (nonlinear_arith)
                requires
                    index > data_len / width,
                    width > 0,
            ;
        }
        return Err(CheckpointError::ReadOutOfRange { dtype, index });
    }
    proof {
        assert(index * width <= data_len) by (nonlinear_arith)
            requires
                index <= data_len / width,
                width > 0,
        ;
    }
    let offset = index * width;
    if width > data_len - offset {
        return Err(CheckpointError::ReadOutOfRange { dtype, index });
    }
    Ok(offset)
}

/// Where one element of a dequantized matrix is read from.
#[derive(Clone, Copy, Debug, PartialEq, Eq)]
pub enum ElementRead {
    /// A plain scalar at `offset` in the tensor data.
    Scalar { offset: usize },
    /// An FP8 E4M3 byte at `offset`, times the block scale at `scale_offset`.
    ScaledF8 { offset: usize, scale_offset: usize },
    /// The low (`high == false`) or high nibble of the byte at `offset` as
    /// FP4 E2M1, times the block scale at `scale_offset`.
    ScaledF4 { offset: usize, high: bool, scale_offset: usize },
}

/// Shape and storage of a tensor as the loader reads it.
#[derive(Clone, Debug, PartialEq, Eq)]
pub struct TensorLayout {
    pub dtype: Dtype,
    pub shape: Vec<usize>,
    pub data_len: usize,
}

/// The scale read of a quantized element, or why it cannot be made.
pub open spec fn scale_read_spec(
    scale: Option<TensorLayout>,
    row: usize,
    col: usize,
    rows: usize,
    cols: usize,
) -> Result<usize, CheckpointError> {
    match scale {
        None => Err(CheckpointError::MissingScale),
        Some(s) => if s.shape@.len() != 2 {
            Err(CheckpointError::ScaleNotMatrix { dims: s.shape@.len() as usize })
        } else if s.shape@[0] == 0 || s.shape@[1] == 0 {
            Err(CheckpointError::EmptyScale)
        } else {
            scalar_offset_spec(
                s.dtype,
                s.data_len,
                block_scale_index_spec(
                    s.shape@[0] as int,
                    s.shape@[1] as int,
                    row as int,
                    col as int,
                    rows as int,
                    cols as int,
                ) as usize,
            )
        },
    }
}

/// Where element `(row, col)` of a 2-D weight is read from, or why it
/// cannot be: plain types read the scalar at `row * cols + col`; FP8 reads
/// that byte and its block scale; packed FP4 reads nibble `col % 2` of byte
/// `row * packed_cols + col / 2` and its block scale.
pub open spec fn element_read_spec(
    tensor: TensorLayout,
    scale: Option<TensorLayout>,
    row: usize,
    col: usize,
    rows: usize,
    logical_cols: usize,
) -> Result<ElementRead, CheckpointError> {
    let phys = tensor.shape@[1];
    match tensor.dtype {
        Dtype::Bf16 | Dtype::F32 | Dtype::F8E8M0 => match scalar_offset_spec(
            tensor.dtype,
            tensor.data_len,
            (row * phys + col) as usize,
        ) {
            Ok(offset) => Ok(ElementRead::Scalar { offset }),
            Err(e) => Err(e),
        },
        Dtype::F8E4M3 => match scalar_offset_spec(
            tensor.dtype,
            tensor.data_len,
            (row * phys + col) as usize,
        ) {
            Err(e) => Err(e),
            Ok(offset) => match scale_read_spec(scale, row, col, rows, logical_cols) {
                Ok(scale_offset) => Ok(ElementRead::ScaledF8 { offset, scale_offset }),
                Err(e) => Err(e),
            },
        },
        Dtype::I8 => match scale_read_spec(scale, row, col, rows, logical_cols) {
            Ok(scale_offset) => Ok(
                ElementRead::ScaledF4 {
                    offset: (row * phys + col / 2) as usize,
                    high: col % 2 == 1,
                    scale_offset,
                },
            ),
            Err(e) => Err(e),
        },
        _ => Err(CheckpointError::UnsupportedMatrixDtype(tensor.dtype)),
    }
}

/// The read of element `(row, col)` of a 2-D weight of `rows` rows and
/// `logical_cols` columns, with its block scale for quantized types.
pub fn element_read(
    tensor: &TensorLayout,
    scale: Option<&TensorLayout>,
    row: usize,
    col: usize,
    rows: usize,
    logical_cols: usize,
) -> (r: Result<ElementRead, CheckpointError>)
    requires
        tensor.shape@.len() == 2,
        rows == tensor.shape@[0],
        logical_cols == if tensor.dtype == Dtype::I8 {
            tensor.shape@[1] * 2
        } else {
            tensor.shape@[1] as int
        },
        row < rows,
        col < logical_cols,
        rows * tensor.shape@[1] <= usize::MAX,
        (scale matches Some(s) && s.shape@.len() == 2) ==> scale.unwrap().shape@[0] * scale.unwrap().shape@[1] <= usize::MAX,
        tensor.dtype == Dtype::I8 ==> row * tensor.shape@[1] + col / 2 < tensor.data_len,
    ensures
        r == element_read_spec(
            *tensor,
            match scale {
                Some(s) => Some(*s),
                None => None,
            },
            row,
            col,
            rows,
            logical_cols,
        ),
{
    let physical_cols = tensor.shape[1];
    proof {
        lemma_mul_le(row as int + 1, rows as int, physical_cols as int);
        assert((row + 1) * physical_cols == row * physical_cols + physical_cols) by (nonlinear_arith);
    }
    match tensor.dtype {
        Dtype::Bf16 | Dtype::F32 | Dtype::F8E8M0 => {
            let idx = row * physical_cols + col;
            let offset = scalar_offset(tensor.dtype, tensor.data_len, idx)?;
            Ok(ElementRead::Scalar { offset })
        },
        Dtype::F8E4M3 => {
            let idx = row * physical_cols + col;
            let offset = scalar_offset(tensor.dtype, tensor.data_len, idx)?;
            let scale_offset = read_scale(scale, row, col, rows, logical_cols)?;
            Ok(ElementRead::ScaledF8 { offset, scale_offset })
        },
        Dtype::I8 => {
            let scale_offset = read_scale(scale, row, col, rows, logical_cols)?;
            Ok(
                ElementRead::ScaledF4 {
                    offset: row * physical_cols + col / 2,
                    high: col % 2 == 1,
                    scale_offset,
                },
            )
        },
        _ => Err(CheckpointError::UnsupportedMatrixDtype(tensor.dtype)),
    }
}

fn read_scale(
    scale: Option<&TensorLayout>,
    row: usize,
    col: usize,
    rows: usize,
    cols: usize,
) -> (r: Result<usize, CheckpointError>)
    requires
        (scale matches Some(s) && s.shape@.len() == 2) ==> scale.unwrap().shape@[0] * scale.unwrap().shape@[1] <= usize::MAX,
    ensures
        r == scale_read_spec(
            match scale {
                Some(s) => Some(*s),
                None => None,
            },
            row,
            col,
            rows,
            cols,
        ),
{
    match scale {
        None => Err(CheckpointError::MissingScale),
        Some(s) => {
            let idx = block_scale_index(s.shape.as_slice(), row, col, rows, cols)?;
            scalar_offset(s.dtype, s.data_len, idx)
        },
    }
}

/// Value `k` of a little-endian `i64` tensor.
pub open spec fn i64_at(data: Seq<u8>, k: int) -> i64 {
    vstd::bytes::spec_u64_from_le_bytes(data.subrange(8 * k, 8 * k + 8)) as i64
}

/// The values of an `I64` tensor stored little-endian; the data must hold
/// whole values.
pub fn decode_i64_tensor(dtype: Dtype, data: &[u8]) -> (r: Result<Vec<i64>, CheckpointError>)
    ensures
        dtype != Dtype::I64 ==> r == Err::<Vec<i64>, CheckpointError>(CheckpointError::NotI64 { dtype }),
        dtype == Dtype::I64 && data@.len() % 8 != 0 ==> r == Err::<Vec<i64>, CheckpointError>(
            CheckpointError::UnalignedI64 { byte_len: data@.len() as usize },
        ),
        dtype == Dtype::I64 && data@.len() % 8 == 0 ==> (r matches Ok(v) && v@.len() == data@.len()
            / 8 && forall|k: int| 0 <= k < v@.len() ==> #[trigger] v@[k] == i64_at(data@, k)),
{
    if dtype != Dtype::I64 {
        return Err(CheckpointError::NotI64 { dtype });
    }
    if data.len() % 8 != 0 {
        return Err(CheckpointError::UnalignedI64 { byte_len: data.len() });
    }
    let n = data.len() / 8;
    let mut out: Vec<i64> = Vec::with_capacity(n);
    let mut k: usize = 0;
    while k < n
        invariant
            n == data@.len() / 8,
            data@.len() % 8 == 0,
            k <= n,
            out@.len() == k,
            forall|q: int| 0 <= q < k ==> #[trigger] out@[q] == i64_at(data@, q),
        decreases n - k,
    {
        proof {
            assert(8 * k + 8 <= data@.len()) by (nonlinear_arith)
                requires
                    k < n,
                    n == data@.len() / 8,
                    data@.len() % 8 == 0,
            {
                vstd::arithmetic::div_mod::lemma_fundamental_div_mod(data@.len() as int, 8);
            }
        }
        assert(data@.len() == data.len());
        let chunk = &data[8 * k..8 * k + 8];
        let bits = vstd::bytes::u64_from_le_bytes(chunk);
        out.push(bits as i64);
        k = k + 1;
    }
    Ok(out)
}

/// The values a load-time switch accepts as on and as off.
pub open spec fn switch_value(raw: Seq<char>) -> Option<bool> {
    if raw == "1"@ || raw == "true"@ || raw == "TRUE"@ || raw == "yes"@ || raw == "YES"@ || raw
        == "on"@ || raw == "ON"@ {
        Some(true)
    } else if raw == "0"@ || raw == "false"@ || raw == "FALSE"@ || raw == "no"@ || raw == "NO"@
        || raw == "off"@ || raw == "OFF"@ {
        Some(false)
    } else {
        None
    }
}

fn is_one_of(raw: &[char], a: &str, b: &str, c: &str, d: &str, e: &str, f: &str, g: &str) -> (r: bool)
    ensures
        r == (raw@ == a@ || raw@ == b@ || raw@ == c@ || raw@ == d@ || raw@ == e@ || raw@ == f@
            || raw@ == g@),
{
    chars_eq(raw, str_chars(a).as_slice()) || chars_eq(raw, str_chars(b).as_slice()) || chars_eq(
        raw,
        str_chars(c).as_slice(),
    ) || chars_eq(raw, str_chars(d).as_slice()) || chars_eq(raw, str_chars(e).as_slice())
        || chars_eq(raw, str_chars(f).as_slice()) || chars_eq(raw, str_chars(g).as_slice())
}

/// Reads a load-time on/off switch from its environment value: unset is
/// off; `1/true/TRUE/yes/YES/on/ON` and `0/false/FALSE/no/NO/off/OFF` are
/// accepted, anything else is refused.
pub fn parse_switch(raw: Option<&str>) -> (r: Result<bool, CheckpointError>)
    ensures
        match raw {
            None => r == Ok::<bool, CheckpointError>(false),
            Some(v) => match switch_value(v@) {
                Some(b) => r == Ok::<bool, CheckpointError>(b),
                None => r matches Err(CheckpointError::InvalidSwitch(s)) && s@ == v@,
            },
        },
{
    match raw {
        None => Ok(false),
        Some(v) => {
            let chars = str_chars(v);
            if is_one_of(chars.as_slice(), "1", "true", "TRUE", "yes", "YES", "on", "ON") {
                Ok(true)
            } else if is_one_of(chars.as_slice(), "0", "false", "FALSE", "no", "NO", "off", "OFF") {
                Ok(false)
            } else {
                Err(CheckpointError::InvalidSwitch(v.to_owned()))
            }
        },
    }
}

/// Checks the top-level tensors against the model config: embedding and
/// LM head are `vocab_size x hidden_size`, the final norm has
/// `hidden_size` entries; the first mismatch is reported.
pub fn check_top_level_shapes(
    embed: (usize, usize),
    head: (usize, usize),
    norm_len: usize,
    vocab_size: usize,
    hidden_size: usize,
) -> (r: Result<(), CheckpointError>)
    ensures
        !(embed.0 == vocab_size && embed.1 == hidden_size) ==> r == Err::<(), CheckpointError>(
            CheckpointError::EmbedShape { rows: embed.0, cols: embed.1, vocab_size, hidden_size },
        ),
        (embed.0 == vocab_size && embed.1 == hidden_size) && !(head.0 == vocab_size && head.1
            == hidden_size) ==> r == Err::<(), CheckpointError>(
            CheckpointError::HeadShape { rows: head.0, cols: head.1, vocab_size, hidden_size },
        ),
        (embed.0 == vocab_size && embed.1 == hidden_size) && (head.0 == vocab_size && head.1
            == hidden_size) && norm_len != hidden_size ==> r == Err::<(), CheckpointError>(
            CheckpointError::NormLen { len: norm_len, hidden_size },
        ),
        (embed.0 == vocab_size && embed.1 == hidden_size) && (head.0 == vocab_size && head.1
            == hidden_size) && norm_len == hidden_size ==> r == Ok::<(), CheckpointError>(()),
{
    if !(embed.0 == vocab_size && embed.1 == hidden_size) {
        return Err(CheckpointError::EmbedShape { rows: embed.0, cols: embed.1, vocab_size, hidden_size });
    }
    if !(head.0 == vocab_size && head.1 == hidden_size) {
        return Err(CheckpointError::HeadShape { rows: head.0, cols: head.1, vocab_size, hidden_size });
    }
    if norm_len != hidden_size {
        return Err(CheckpointError::NormLen { len: norm_len, hidden_size });
    }
    Ok(())
}

/// The decode scope the sliding-window path supports: at least one
/// sliding-window attention layer, a non-empty vocabulary, and an expert
/// layout covering every routed expert; the first failure is reported.
pub fn validate_sliding_window_decode_scope(
    sliding_window_layers: usize,
    csa_layers: usize,
    hca_layers: usize,
    vocab_size: usize,
    ep_num_experts: usize,
    n_routed_experts: usize,
) -> (r: Result<(), CheckpointError>)
    ensures
        sliding_window_layers == 0 ==> r == Err::<(), CheckpointError>(
            CheckpointError::NoSlidingWindowLayers { csa_layers, hca_layers },
        ),
        sliding_window_layers > 0 && vocab_size == 0 ==> r == Err::<(), CheckpointError>(
            CheckpointError::EmptyVocab,
        ),
        sliding_window_layers > 0 && vocab_size > 0 && ep_num_experts != n_routed_experts ==> r
            == Err::<(), CheckpointError>(
            CheckpointError::ExpertCountMismatch { ep_experts: ep_num_experts, routed_experts: n_routed_experts },
        ),
        sliding_window_layers > 0 && vocab_size > 0 && ep_num_experts == n_routed_experts ==> r
            == Ok::<(), CheckpointError>(()),
{
    if sliding_window_layers == 0 {
        return Err(CheckpointError::NoSlidingWindowLayers { csa_layers, hca_layers });
    }
    if vocab_size == 0 {
        return Err(CheckpointError::EmptyVocab);
    }
    if ep_num_experts != n_routed_experts {
        return Err(
            CheckpointError::ExpertCountMismatch {
                ep_experts: ep_num_experts,
                routed_experts: n_routed_experts,
            },
        );
    }
    Ok(())
}

/// Reference logits must hold one value per vocabulary entry.
pub fn check_reference_logits_len(len: usize, vocab_size: usize) -> (r: Result<(), CheckpointError>)
    ensures
        len == vocab_size ==> r == Ok::<(), CheckpointError>(()),
        len != vocab_size ==> r == Err::<(), CheckpointError>(
            CheckpointError::ReferenceLogitsLen { len, vocab_size },
        ),
{
    if len != vocab_size {
        return Err(CheckpointError::ReferenceLogitsLen { len, vocab_size });
    }
    Ok(())
}

/// The hyper-connection stream of `seq_len` tokens: element `i` of the
/// stream is element `d` of token `t`'s embedding, where `t` is the row of
/// width `hidden_size * hc_mult` holding `i` and `d` is `i` modulo
/// `hidden_size`.
pub open spec fn hc_stream_spec<T>(
    embeddings: Seq<T>,
    seq_len: nat,
    hidden_size: nat,
    hc_mult: nat,
) -> Seq<T> {
    Seq::new(
        seq_len * (hidden_size * hc_mult),
        |i: int| embeddings[(i / ((hidden_size * hc_mult) as int)) * hidden_size + i % (hidden_size as int)],
    )
}

/// Lane `h` of token `t` in the stream is token `t`'s embedding.
pub proof fn lemma_hc_stream_lanes<T>(
    embeddings: Seq<T>,
    seq_len: nat,
    hidden_size: nat,
    hc_mult: nat,
    t: int,
    h: int,
    d: int,
)
    requires
        0 <= t < seq_len,
        0 <= h < hc_mult,
        0 <= d < hidden_size,
    ensures
        t * (hidden_size * hc_mult) + h * hidden_size + d < seq_len * (hidden_size * hc_mult),
        hc_stream_spec(embeddings, seq_len, hidden_size, hc_mult)[t * (hidden_size * hc_mult) + h
            * hidden_size + d] == embeddings[t * hidden_size + d],
{
    let sh = (hidden_size * hc_mult) as int;
    let hs = hidden_size as int;
    let i = t * sh + h * hs + d;
    assert(h * hs + d < sh) by (nonlinear_arith)
        requires
            0 <= h < hc_mult,
            0 <= d < hs,
            sh == hs * hc_mult,
    ;
    assert(0 <= h * hs + d) by (nonlinear_arith)
        requires
            0 <= h,
            0 <= d,
            hs >= 0,
    ;
    lemma_div_mod_of_parts(t, sh, h * hs + d);
    assert(i == (t * hc_mult + h) * hs + d) by (nonlinear_arith)
        requires
            i == t * sh + h * hs + d,
            sh == hs * hc_mult,
    ;
    lemma_div_mod_of_parts(t * hc_mult + h, hs, d);
    lemma_mul_le(t + 1, seq_len as int, sh);
    assert((t + 1) * sh == t * sh + sh) by (nonlinear_arith);
}

/// The hyper-connection stream a token sequence starts from: each token's
/// `hidden_size` embedding repeated in all `hc_mult` lanes, so element
/// `(t, h, d)` of the stream is element `(t, d)` of the embeddings.
pub fn initial_hc_stream<T: Copy>(
    embeddings: &[T],
    hidden_dim: usize,
    seq_len: usize,
    hidden_size: usize,
    hc_mult: usize,
) -> (r: Result<Vec<T>, CheckpointError>)
    requires
        embeddings@.len() == seq_len * hidden_dim,
        hidden_size * hc_mult <= usize::MAX,
        seq_len * (hidden_size * hc_mult) <= usize::MAX,
    ensures
        hidden_dim != hidden_size ==> r == Err::<Vec<T>, CheckpointError>(
            CheckpointError::HiddenDimMismatch { hidden_dim, hidden_size },
        ),
        hidden_dim == hidden_size && hc_mult == 0 ==> r == Err::<Vec<T>, CheckpointError>(
            CheckpointError::ZeroHcMult,
        ),
        hidden_dim == hidden_size && hc_mult > 0 ==> (r matches Ok(v) && v@ == hc_stream_spec(
            embeddings@,
            seq_len as nat,
            hidden_size as nat,
            hc_mult as nat,
        )),
{
    if hidden_dim != hidden_size {
        return Err(CheckpointError::HiddenDimMismatch { hidden_dim, hidden_size });
    }
    if hc_mult == 0 {
        return Err(CheckpointError::ZeroHcMult);
    }
    let stream_hidden = hidden_size * hc_mult;
    let total = seq_len * stream_hidden;
    let ghost spec = hc_stream_spec(embeddings@, seq_len as nat, hidden_size as nat, hc_mult as nat);
    let mut out: Vec<T> = Vec::with_capacity(total);
    if hidden_size == 0 {
        assert(spec =~= Seq::<T>::empty());
        return Ok(out);
    }
    let mut i: usize = 0;
    while i < total
        invariant
            embeddings@.len() == seq_len * hidden_size,
            hidden_size > 0,
            hc_mult > 0,
            stream_hidden == hidden_size * hc_mult,
            total == seq_len * stream_hidden,
            spec == hc_stream_spec(embeddings@, seq_len as nat, hidden_size as nat, hc_mult as nat),
            i <= total,
            out@ == spec.subrange(0, i as int),
        decreases total - i,
    {
        let t = i / stream_hidden;
        let d = i % hidden_size;
        proof {
            assert(stream_hidden > 0) by (nonlinear_arith)
                requires
                    stream_hidden == hidden_size * hc_mult,
                    hidden_size > 0,
                    hc_mult > 0,
            ;
            vstd::arithmetic::div_mod::lemma_fundamental_div_mod(i as int, stream_hidden as int);
            assert(t < seq_len) by (nonlinear_arith)
                requires
                    i < total,
                    total == seq_len * stream_hidden,
                    i == stream_hidden * t + i % stream_hidden,
                    0 <= i % stream_hidden,
                    stream_hidden > 0,
            {
                if t >= seq_len {
                    assert(stream_hidden * t >= stream_hidden * seq_len);
                }
            }
            assert(t * hidden_size + d < embeddings@.len()) by (nonlinear_arith)
                requires
                    t < seq_len,
                    d < hidden_size,
                    embeddings@.len() == seq_len * hidden_size,
            {
                assert((t + 1) * hidden_size <= seq_len * hidden_size);
            }
        }
        assert(embeddings@.len() == embeddings.len());
        out.push(embeddings[t * hidden_size + d]);
        i = i + 1;
        assert(out@ =~= spec.subrange(0, i as int));
    }
    assert(spec.subrange(0, total as int) =~= spec);
    Ok(out)
}

/// Checks the inputs of the LM-head hyper-connection mix: the token lies in
/// the stream, the stream is `hidden_size * hc_mult` wide, the mix matrix
/// has the stream's width and at least `hc_mult` rows, and base and scale
/// are long enough; the first failure is reported.
pub fn check_head_hc_shapes(
    token_idx: usize,
    seq_len: usize,
    stream_dim: usize,
    hidden_size: usize,
    hc_mult: usize,
    mix: (usize, usize),
    base_len: usize,
    scale_len: usize,
) -> (r: Result<(), CheckpointError>)
    requires
        hidden_size * hc_mult <= usize::MAX,
    ensures
        token_idx >= seq_len ==> r == Err::<(), CheckpointError>(
            CheckpointError::HeadTokenOutOfRange { token_idx, seq_len },
        ),
        token_idx < seq_len && stream_dim != hidden_size * hc_mult ==> r == Err::<(), CheckpointError>(
            CheckpointError::HeadStreamDimMismatch { stream_dim, hidden_size, hc_mult },
        ),
        token_idx < seq_len && stream_dim == hidden_size * hc_mult && !(mix.1 == stream_dim
            && mix.0 >= hc_mult) ==> r == Err::<(), CheckpointError>(
            CheckpointError::HeadMixShape { rows: mix.0, cols: mix.1, hc_mult, stream_dim },
        ),
        token_idx < seq_len && stream_dim == hidden_size * hc_mult && (mix.1 == stream_dim
            && mix.0 >= hc_mult) && !(base_len >= hc_mult && scale_len >= 1) ==> r == Err::<
            (),
            CheckpointError,
        >(CheckpointError::HeadBaseScaleTooShort { base: base_len, scale: scale_len, hc_mult }),
        token_idx < seq_len && stream_dim == hidden_size * hc_mult && (mix.1 == stream_dim
            && mix.0 >= hc_mult) && (base_len >= hc_mult && scale_len >= 1) ==> r == Ok::<
            (),
            CheckpointError,
        >(()),
{
    if token_idx >= seq_len {
        return Err(CheckpointError::HeadTokenOutOfRange { token_idx, seq_len });
    }
    if stream_dim != hidden_size * hc_mult {
        return Err(CheckpointError::HeadStreamDimMismatch { stream_dim, hidden_size, hc_mult });
    }
    if !(mix.1 == stream_dim && mix.0 >= hc_mult) {
        return Err(CheckpointError::HeadMixShape { rows: mix.0, cols: mix.1, hc_mult, stream_dim });
    }
    if !(base_len >= hc_mult && scale_len >= 1) {
        return Err(CheckpointError::HeadBaseScaleTooShort { base: base_len, scale: scale_len, hc_mult });
    }
    Ok(())
}

/// Number of indices in a range (`Range::len`).
pub open spec fn range_len(r: Range<usize>) -> nat {
    if r.start < r.end {
        (r.end - r.start) as nat
    } else {
        0
    }
}

/// The read of the `k`-th element, in row-major order, of the block of a
/// matrix that starts at `(r0, c0)` and is `ncols` columns wide.
pub open spec fn block_read_at(
    tensor: TensorLayout,
    scale: Option<TensorLayout>,
    r0: int,
    c0: int,
    ncols: int,
    rows: usize,
    logical_cols: usize,
    k: int,
) -> Result<ElementRead, CheckpointError> {
    element_read_spec(tensor, scale, (r0 + k / ncols) as usize, (c0 + k % ncols) as usize, rows, logical_cols)
}

/// The error of the first of the first `n` reads of the block that fails.
pub open spec fn first_read_error(
    tensor: TensorLayout,
    scale: Option<TensorLayout>,
    r0: int,
    c0: int,
    ncols: int,
    rows: usize,
    logical_cols: usize,
    n: nat,
) -> Option<CheckpointError>
    decreases n,
{
    if n == 0 {
        None
    } else {
        match first_read_error(tensor, scale, r0, c0, ncols, rows, logical_cols, (n - 1) as nat) {
            Some(e) => Some(e),
            None => match block_read_at(tensor, scale, r0, c0, ncols, rows, logical_cols, n - 1) {
                Err(e) => Some(e),
                Ok(_) => None,
            },
        }
    }
}

proof fn lemma_first_read_error_stays(
    tensor: TensorLayout,
    scale: Option<TensorLayout>,
    r0: int,
    c0: int,
    ncols: int,
    rows: usize,
    logical_cols: usize,
    m: nat,
    n: nat,
)
    requires
        m <= n,
        first_read_error(tensor, scale, r0, c0, ncols, rows, logical_cols, m) is Some,
    ensures
        first_read_error(tensor, scale, r0, c0, ncols, rows, logical_cols, n) == first_read_error(
            tensor,
            scale,
            r0,
            c0,
            ncols,
            rows,
            logical_cols,
            m,
        ),
    decreases n - m,
{
    if m < n {
        lemma_first_read_error_stays(tensor, scale, r0, c0, ncols, rows, logical_cols, m, (n - 1) as nat);
    }
}

/// The elements of the loaded block of a matrix, in row-major order, and
/// where each is read from.
#[derive(Clone, Debug, PartialEq, Eq)]
pub struct MatrixReadPlan {
    pub rows: usize,
    pub cols: usize,
    pub reads: Vec<ElementRead>,
}

/// The rows and columns of a 2-D weight: its shape's rows and its logical
/// column count (two per byte for packed FP4).
pub open spec fn matrix_dims(tensor: TensorLayout) -> (usize, usize) {
    let phys = tensor.shape@[1];
    (tensor.shape@[0], if tensor.dtype == Dtype::I8 {
        (phys * 2) as usize
    } else {
        phys
    })
}

/// What reading the block of `tensor` that `shard` selects gives: the
/// tensor must be a matrix; the shard's row and column ranges are checked
/// in that order; then the outcome of looking up the block-scale tensor is
/// reported; then each element is located, in row-major order, and the
/// first element that cannot be read is reported.
pub open spec fn matrix_reads_ok(
    tensor: TensorLayout,
    scale: Result<Option<TensorLayout>, CheckpointError>,
    shard: MatrixShard,
    r: Result<MatrixReadPlan, CheckpointError>,
) -> bool {
    if tensor.shape@.len() != 2 {
        r == Err::<MatrixReadPlan, CheckpointError>(
            CheckpointError::NotMatrix { dims: tensor.shape@.len() as usize },
        )
    } else {
        let (rows, logical) = matrix_dims(tensor);
        match shard_rows_spec(shard, rows) {
            Err(e) => r == Err::<MatrixReadPlan, CheckpointError>(e),
            Ok(rr) => match shard_cols_spec(shard, logical) {
                Err(e) => r == Err::<MatrixReadPlan, CheckpointError>(e),
                Ok(cr) => match scale {
                    Err(e) => r == Err::<MatrixReadPlan, CheckpointError>(e),
                    Ok(sc) => {
                        let nr = range_len(rr);
                        let nc = range_len(cr);
                        match first_read_error(
                            tensor,
                            sc,
                            rr.start as int,
                            cr.start as int,
                            nc as int,
                            rows,
                            logical,
                            nr * nc,
                        ) {
                            Some(e) => r == Err::<MatrixReadPlan, CheckpointError>(e),
                            None => r matches Ok(p) && p.rows == nr && p.cols == nc && p.reads@.len()
                                == nr * nc && forall|k: int|
                                0 <= k < nr * nc ==> Ok::<ElementRead, CheckpointError>(
                                    #[trigger] p.reads@[k],
                                ) == block_read_at(
                                    tensor,
                                    sc,
                                    rr.start as int,
                                    cr.start as int,
                                    nc as int,
                                    rows,
                                    logical,
                                    k,
                                ),
                        }
                    },
                },
            },
        }
    }
}

/// The outcome of a block-scale lookup, by value.
pub open spec fn scale_lookup_view(scale: Result<Option<&TensorLayout>, CheckpointError>) -> Result<
    Option<TensorLayout>,
    CheckpointError,
> {
    match scale {
        Ok(Some(s)) => Ok(Some(*s)),
        Ok(None) => Ok(None),
        Err(e) => Err(e),
    }
}

fn range_count(r: &Range<usize>) -> (n: usize)
    ensures
        n == range_len(*r),
{
    if r.start < r.end {
        r.end - r.start
    } else {
        0
    }
}

/// Locates every element of the block of a 2-D weight that `shard`
/// selects. `scale` is the outcome of looking up the block-scale tensor
/// (`Ok(None)` for unquantized types). The data of a packed FP4 tensor holds
/// its whole shape.
pub fn plan_matrix_reads(
    tensor: &TensorLayout,
    scale: Result<Option<&TensorLayout>, CheckpointError>,
    shard: &MatrixShard,
) -> (r: Result<MatrixReadPlan, CheckpointError>)
    requires
        tensor.shape@.len() == 2 ==> {
            let phys = tensor.shape@[1];
            &&& phys * 2 <= usize::MAX
            &&& tensor.shape@[0] * (phys * 2) <= usize::MAX
            &&& tensor.dtype == Dtype::I8 ==> tensor.shape@[0] * phys <= tensor.data_len
        },
        scale matches Ok(Some(s)) ==> (s.shape@.len() == 2 ==> s.shape@[0] * s.shape@[1] <= usize::MAX),
    ensures
        matrix_reads_ok(*tensor, scale_lookup_view(scale), *shard, r),
{
    if tensor.shape.len() != 2 {
        return Err(CheckpointError::NotMatrix { dims: tensor.shape.len() });
    }
    let rows = tensor.shape[0];
    let phys = tensor.shape[1];
    let logical = logical_cols(tensor.dtype, phys);
    let ghost sg = scale_lookup_view(scale);
    let rr = shard.row_range(rows)?;
    let cr = shard.col_range(logical)?;
    let sc: Option<&TensorLayout> = scale?;
    let ghost sv: Option<TensorLayout> = match sc {
        Some(s) => Some(*s),
        None => None,
    };
    let nr = range_count(&rr);
    let nc = range_count(&cr);
    proof {
        lemma_mul_le(nr as int, rows as int, nc as int);
        lemma_mul_le(nc as int, (phys * 2) as int, rows as int);
        lemma_mul_le(logical as int, (phys * 2) as int, rows as int);
        assert(rows * nc == nc * rows) by (nonlinear_arith);
        assert(rows * (phys * 2) == (phys * 2) * rows) by (nonlinear_arith);
    }
    let n = nr * nc;
    let mut reads: Vec<ElementRead> = Vec::new();
    let mut k: usize = 0;
    while k < n
        invariant
            tensor.shape@.len() == 2,
            rows == tensor.shape@[0],
            phys == tensor.shape@[1],
            logical == matrix_dims(*tensor).1,
            phys * 2 <= usize::MAX,
            rows * (phys * 2) <= usize::MAX,
            tensor.dtype == Dtype::I8 ==> rows * phys <= tensor.data_len,
            sc matches Some(s) ==> (s.shape@.len() == 2 ==> s.shape@[0] * s.shape@[1] <= usize::MAX),
            sv == match sc {
                Some(s) => Some(*s),
                None => None,
            },
            nr == range_len(rr),
            nc == range_len(cr),
            shard_rows_spec(*shard, rows) == Ok::<Range<usize>, CheckpointError>(rr),
            shard_cols_spec(*shard, logical) == Ok::<Range<usize>, CheckpointError>(cr),
            sg == Ok::<Option<TensorLayout>, CheckpointError>(sv),
            sg == scale_lookup_view(scale),
            nr > 0 ==> rr.end <= rows,
            nc > 0 ==> cr.end <= logical,
            n == nr * nc,
            k <= n,
            reads@.len() == k,
            first_read_error(*tensor, sv, rr.start as int, cr.start as int, nc as int, rows, logical, k as nat) is None,
            forall|q: int|
                0 <= q < k ==> Ok::<ElementRead, CheckpointError>(#[trigger] reads@[q]) == block_read_at(
                    *tensor,
                    sv,
                    rr.start as int,
                    cr.start as int,
                    nc as int,
                    rows,
                    logical,
                    q,
                ),
        decreases n - k,
    {
        proof {
            assert(nc > 0) by (nonlinear_arith)
                requires
                    k < n,
                    n == nr * nc,
                    nr >= 0,
                    nc >= 0,
            ;
            assert(nr > 0) by (nonlinear_arith)
                requires
                    k < n,
                    n == nr * nc,
                    nr >= 0,
                    nc >= 0,
            ;
        }
        let i = k / nc;
        let j = k % nc;
        proof {
            vstd::arithmetic::div_mod::lemma_fundamental_div_mod(k as int, nc as int);
            assert(i < nr) by (nonlinear_arith)
                requires
                    k < n,
                    n == nr * nc,
                    k == nc * i + j,
                    0 <= j,
                    nc > 0,
            {
                if i >= nr {
                    assert(nc * i >= nc * nr);
                }
            }
        }
        let row = rr.start + i;
        let col = cr.start + j;
        proof {
            assert(row < rows);
            assert(col < logical);
            if tensor.dtype == Dtype::I8 {
                assert(row * phys + col / 2 < tensor.data_len) by (nonlinear_arith)
                    requires
                        row < rows,
                        col < phys * 2,
                        rows * phys <= tensor.data_len,
                {
                    assert(col / 2 < phys);
                    assert((row + 1) * phys <= rows * phys);
                }
            }
            assert(rows * phys <= usize::MAX) by (nonlinear_arith)
                requires
                    rows * (phys * 2) <= usize::MAX,
            ;
        }
        let e = element_read(tensor, sc, row, col, rows, logical);
        proof {
            assert(row == (rr.start as int + (k as int) / (nc as int)) as usize);
            assert(col == (cr.start as int + (k as int) % (nc as int)) as usize);
            assert(e == block_read_at(*tensor, sv, rr.start as int, cr.start as int, nc as int, rows, logical, k as int));
        }
        match e {
            Ok(read) => {
                reads.push(read);
            },
            Err(err) => {
                proof {
                    assert(first_read_error(*tensor, sv, rr.start as int, cr.start as int, nc as int, rows, logical, (k + 1) as nat) == Some(err));
                    lemma_first_read_error_stays(*tensor, sv, rr.start as int, cr.start as int, nc as int, rows, logical, (k + 1) as nat, n as nat);
                    assert(n as nat == nr * nc);
                }
                return Err(err);
            },
        }
        k = k + 1;
    }
    Ok(MatrixReadPlan { rows: nr, cols: nc, reads })
}

/// What reading a 1-D tensor gives: it must be a vector; each of its
/// elements is read as a scalar, so an unsupported type fails on the first
/// element and data too short fails on the first element past its end.
pub open spec fn vector_reads_spec(tensor: TensorLayout) -> Result<Seq<usize>, CheckpointError> {
    if tensor.shape@.len() != 1 {
        Err(CheckpointError::NotVector { dims: tensor.shape@.len() as usize })
    } else {
        let n = tensor.shape@[0];
        if n == 0 {
            Ok(Seq::empty())
        } else {
            match scalar_width(tensor.dtype) {
                None => Err(CheckpointError::UnsupportedScalarDtype(tensor.dtype)),
                Some(w) => if n * w <= tensor.data_len {
                    Ok(Seq::new(n as nat, |k: int| (k * w) as usize))
                } else {
                    Err(CheckpointError::ReadOutOfRange {
                        dtype: tensor.dtype,
                        index: ((tensor.data_len as nat) / w) as usize,
                    })
                },
            }
        }
    }
}

/// The byte offsets of the elements of a 1-D tensor.
pub fn plan_vector_reads(tensor: &TensorLayout) -> (r: Result<Vec<usize>, CheckpointError>)
    ensures
        match vector_reads_spec(*tensor) {
            Ok(offsets) => r matches Ok(v) && v@ == offsets,
            Err(e) => r == Err::<Vec<usize>, CheckpointError>(e),
        },
{
    if tensor.shape.len() != 1 {
        return Err(CheckpointError::NotVector { dims: tensor.shape.len() });
    }
    let n = tensor.shape[0];
    let mut out: Vec<usize> = Vec::new();
    let mut k: usize = 0;
    while k < n
        invariant
            tensor.shape@.len() == 1,
            n == tensor.shape@[0],
            k <= n,
            out@.len() == k,
            k > 0 ==> scalar_width(tensor.dtype) is Some,
            forall|q: int| 0 <= q < k ==> #[trigger] out@[q] == (q * scalar_width(tensor.dtype).unwrap()) as usize,
            k > 0 ==> k * scalar_width(tensor.dtype).unwrap() <= tensor.data_len,
        decreases n - k,
    {
        match scalar_offset(tensor.dtype, tensor.data_len, k) {
            Ok(offset) => {
                proof {
                    let w = scalar_width(tensor.dtype).unwrap();
                    assert((k + 1) * w == k * w + w) by (nonlinear_arith);
                }
                out.push(offset);
            },
            Err(e) => {
                proof {
                    if let Some(w) = scalar_width(tensor.dtype) {
                        let d = tensor.data_len as int;
                        assert(k * w + w > d);
                        if k > 0 {
                            assert((k - 1) * w + w == k * w) by (nonlinear_arith);
                        }
                        vstd::arithmetic::div_mod::lemma_fundamental_div_mod(d, w as int);
                        assert(d / (w as int) == k) by (nonlinear_arith)
                            requires
                                k * w + w > d,
                                k > 0 ==> (k - 1) * w + w <= d,
                                d == (w as int) * (d / (w as int)) + d % (w as int),
                                0 <= d % (w as int) < w,
                                w > 0,
                                d >= 0,
                        ;
                        assert(n * w > d) by (nonlinear_arith)
                            requires
                                k < n,
                                k * w + w > d,
                                w > 0,
                        ;
                    }
                }
                return Err(e);
            },
        }
        k = k + 1;
    }
    proof {
        if n > 0 {
            let w = scalar_width(tensor.dtype).unwrap();
            assert(n * w <= tensor.data_len);
        }
    }
    assert(out@ =~= match vector_reads_spec(*tensor) {
        Ok(offsets) => offsets,
        Err(_) => out@,
    });
    Ok(out)
}

/// Where a tensor is read from, among the shards of a checkpoint.
#[derive(Clone, Copy, Debug, PartialEq, Eq, Structural)]
pub enum TensorSource {
    /// The shard the weight map names for it.
    Mapped(usize),
    /// The first shard that holds it, found by scanning.
    Scanned(usize),
    /// No shard holds it.
    Missing,
}

/// The first position holding `true`.
pub open spec fn first_true(present: Seq<bool>) -> Option<int>
    decreases present.len(),
{
    if present.len() == 0 {
        None
    } else {
        match first_true(present.drop_last()) {
            Some(i) => Some(i),
            None => if present.last() {
                Some(present.len() - 1)
            } else {
                None
            },
        }
    }
}

/// Where to read a tensor from: the shard the weight map names for it if
/// it names one (that shard must exist), otherwise the first shard that
/// holds it (`present[i]` tells whether shard `i` does), otherwise none.
pub fn locate_tensor(mapped: Option<usize>, present: &[bool]) -> (r: TensorSource)
    requires
        mapped matches Some(i) ==> i < present@.len(),
    ensures
        r == match mapped {
            Some(i) => TensorSource::Mapped(i),
            None => match first_true(present@) {
                Some(k) => TensorSource::Scanned(k as usize),
                None => TensorSource::Missing,
            },
        },
{
    if let Some(i) = mapped {
        return TensorSource::Mapped(i);
    }
    let mut k: usize = 0;
    while k < present.len()
        invariant
            mapped is None,
            k <= present@.len(),
            first_true(present@.subrange(0, k as int)) is None,
        decreases present.len() - k,
    {
        let ghost sub = present@.subrange(0, k + 1);
        assert(sub.drop_last() =~= present@.subrange(0, k as int));
        if present[k] {
            proof {
                assert(first_true(sub) == Some(k as int));
                lemma_first_true_extends(present@, k as int + 1);
            }
            return TensorSource::Scanned(k);
        }
        k = k + 1;
    }
    assert(present@.subrange(0, present@.len() as int) =~= present@);
    TensorSource::Missing
}

proof fn lemma_first_true_extends(s: Seq<bool>, n: int)
    requires
        0 < n <= s.len(),
        first_true(s.subrange(0, n)) is Some,
    ensures
        first_true(s) == first_true(s.subrange(0, n)),
    decreases s.len() - n,
{
    if n < s.len() {
        let a = s.subrange(0, n + 1);
        assert(a.drop_last() =~= s.subrange(0, n));
        assert(first_true(a) == first_true(s.subrange(0, n)));
        lemma_first_true_extends(s, n + 1);
    } else {
        assert(s.subrange(0, n) =~= s);
    }
}

/// `h` is the height of the blocks that split `n` rows into `parts`
/// blocks: the least positive height with `parts` blocks covering them all.
pub open spec fn is_block_extent(h: int, n: int, parts: int) -> bool {
    &&& h >= 1
    &&& h * parts >= n
    &&& (h == 1 || (h - 1) * parts < n)
}

proof fn lemma_block_extent_is_ceiling(h: int, n: int, parts: int)
    requires
        n >= 0,
        parts > 0,
        is_block_extent(h, n, parts),
    ensures
        (if ceil_div(n, parts) < 1 {
            1
        } else {
            ceil_div(n, parts)
        }) == h,
{
    if h == 1 {
        assert(n <= parts) by (nonlinear_arith)
            requires
                h * parts >= n,
                h == 1,
        ;
        if n == 0 {
            lemma_div_block(n + parts - 1, parts, 0);
        } else {
            lemma_div_block(n + parts - 1, parts, 1);
        }
    } else {
        assert(h * parts <= n + parts - 1 < h * parts + parts) by (nonlinear_arith)
            requires
                h * parts >= n,
                (h - 1) * parts < n,
        ;
        lemma_div_block(n + parts - 1, parts, h);
    }
}

/// Block scales are looked up by ceiling-sized blocks: when `bh` and `bw`
/// are the block height and width that split the matrix into the scale
/// grid (the least sizes whose blocks cover every row and column), element
/// `(row, col)` uses scale row `row / bh` and scale column `col / bw`,
/// clamped to the grid. In particular every row below `bh` uses scale row 0.
pub proof fn lemma_block_scale_index_uses_covering_blocks(
    scale_rows: int,
    scale_cols: int,
    row: int,
    col: int,
    rows: int,
    cols: int,
    bh: int,
    bw: int,
)
    requires
        scale_rows > 0,
        scale_cols > 0,
        rows >= 0,
        cols >= 0,
        row >= 0,
        col >= 0,
        is_block_extent(bh, rows, scale_rows),
        is_block_extent(bw, cols, scale_cols),
    ensures
        block_scale_index_spec(scale_rows, scale_cols, row, col, rows, cols) == (if row / bh
            < scale_rows - 1 {
            row / bh
        } else {
            scale_rows - 1
        }) * scale_cols + (if col / bw < scale_cols - 1 {
            col / bw
        } else {
            scale_cols - 1
        }),
        row < bh ==> block_scale_index_spec(scale_rows, scale_cols, row, col, rows, cols) < scale_cols,
{
    lemma_block_extent_is_ceiling(bh, rows, scale_rows);
    lemma_block_extent_is_ceiling(bw, cols, scale_cols);
    vstd::arithmetic::div_mod::lemma_div_pos_is_pos(col, bw);
    if row < bh {
        lemma_div_block(row, bh, 0);
        let sc = if col / bw < scale_cols - 1 {
            col / bw
        } else {
            scale_cols - 1
        };
        assert(0 <= sc < scale_cols);
        assert(block_scale_index_spec(scale_rows, scale_cols, row, col, rows, cols) == 0 * scale_cols
            + sc);
    }
}

/// The switch values: `1`, `true`, `TRUE`, `yes`, `YES`, `on` and `ON` turn
/// a switch on; `0`, `false`, `FALSE`, `no`, `NO`, `off` and `OFF` turn it
/// off; an accepted value has one to five characters.
pub proof fn lemma_switch_spellings(raw: Seq<char>)
    ensures
        switch_value("1"@) == Some(true),
        switch_value("true"@) == Some(true),
        switch_value("TRUE"@) == Some(true),
        switch_value("yes"@) == Some(true),
        switch_value("YES"@) == Some(true),
        switch_value("on"@) == Some(true),
        switch_value("ON"@) == Some(true),
        switch_value("0"@) == Some(false),
        switch_value("false"@) == Some(false),
        switch_value("FALSE"@) == Some(false),
        switch_value("no"@) == Some(false),
        switch_value("NO"@) == Some(false),
        switch_value("off"@) == Some(false),
        switch_value("OFF"@) == Some(false),
        switch_value(raw) is Some ==> raw.len() <= 5 && raw.len() >= 1,
{
    reveal_strlit("1");
    reveal_strlit("true");
    reveal_strlit("TRUE");
    reveal_strlit("yes");
    reveal_strlit("YES");
    reveal_strlit("on");
    reveal_strlit("ON");
    reveal_strlit("0");
    reveal_strlit("false");
    reveal_strlit("FALSE");
    reveal_strlit("no");
    reveal_strlit("NO");
    reveal_strlit("off");
    reveal_strlit("OFF");
    assert("0"@[0] != "1"@[0]);
    assert("no"@[0] != "on"@[0] && "no"@[0] != "ON"@[0]);
    assert("NO"@[0] != "on"@[0] && "NO"@[0] != "ON"@[0]);
    assert("off"@[0] != "yes"@[0] && "off"@[0] != "YES"@[0]);
    assert("OFF"@[0] != "yes"@[0] && "OFF"@[0] != "YES"@[0]);
    assert("1"@.len() == 1 && "0"@.len() == 1 && "on"@.len() == 2 && "ON"@.len() == 2);
    assert("no"@.len() == 2 && "NO"@.len() == 2 && "yes"@.len() == 3 && "YES"@.len() == 3);
    assert("off"@.len() == 3 && "OFF"@.len() == 3 && "true"@.len() == 4 && "TRUE"@.len() == 4);
    assert("false"@.len() == 5 && "FALSE"@.len() == 5);
}

} // verus!
