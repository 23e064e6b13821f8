//! Tensor helpers of the flat-buffer front ends.
//!
//! Numeric features stay one flat buffer, which callers cut into rows with the number
//! of features per row.
use vstd::prelude::*;

use crate::float::Fp32;
use crate::frames::{scan_strings, FrameEnd};
use crate::inference::parse::{decode_raw_floats, split_rows, NumericType};
use crate::json::{flatten_numbers, flatten_texts, JsonValue};
use crate::text::Utf8Fault;

verus! {

/// Why a tensor is rejected.
#[derive(Debug)]
pub enum TensorError {
    /// The JSON data is not an array.
    NotArray,
    /// A numeric tensor holds this value.
    ExpectedNumber(JsonValue),
    /// A text tensor holds this value.
    ExpectedString(JsonValue),
    /// The dimensions are neither positive nor one of them unknown.
    InvalidShape(Vec<i64>),
    /// The shape has to have two dimensions.
    NotTwoDimensional(Vec<i64>),
    /// Numeric features have one or two dimensions.
    FloatRank(Vec<i64>),
    /// There are not `batch * features` numbers.
    FloatLength { len: usize, batch: usize, features: usize },
    /// Categorical features have one or two dimensions.
    CatRank,
    /// There are not `batch * features` strings.
    CatLength { len: usize, batch: usize, features: usize },
    /// The raw bytes are not a whole number of elements.
    RaggedBytes { len: usize, width: usize },
    /// The bytes end in the length prefix at this offset.
    TruncatedPrefix { offset: usize },
    /// The bytes end before the `len` bytes of text at this offset.
    TruncatedText { len: usize, offset: usize },
    /// A string is not UTF-8.
    InvalidUtf8(Utf8Fault),
}

/// What a [`TensorError`] says.
pub enum TensorFault {
    NotArray,
    ExpectedNumber(crate::json::Json),
    ExpectedString(crate::json::Json),
    InvalidShape(Seq<i64>),
    NotTwoDimensional(Seq<i64>),
    FloatRank(Seq<i64>),
    FloatLength { len: usize, batch: usize, features: usize },
    CatRank,
    CatLength { len: usize, batch: usize, features: usize },
    RaggedBytes { len: usize, width: usize },
    TruncatedPrefix { offset: usize },
    TruncatedText { len: usize, offset: usize },
    InvalidUtf8(Utf8Fault),
}

impl View for TensorError {
    type V = TensorFault;

    open spec fn view(&self) -> TensorFault {
        match self {
            TensorError::NotArray => TensorFault::NotArray,
            TensorError::ExpectedNumber(v) => TensorFault::ExpectedNumber(v@),
            TensorError::ExpectedString(v) => TensorFault::ExpectedString(v@),
            TensorError::InvalidShape(s) => TensorFault::InvalidShape(s@),
            TensorError::NotTwoDimensional(s) => TensorFault::NotTwoDimensional(s@),
            TensorError::FloatRank(s) => TensorFault::FloatRank(s@),
            TensorError::FloatLength { len, batch, features } => TensorFault::FloatLength {
                len: *len,
                batch: *batch,
                features: *features,
            },
            TensorError::CatRank => TensorFault::CatRank,
            TensorError::CatLength { len, batch, features } => TensorFault::CatLength {
                len: *len,
                batch: *batch,
                features: *features,
            },
            TensorError::RaggedBytes { len, width } => TensorFault::RaggedBytes {
                len: *len,
                width: *width,
            },
            TensorError::TruncatedPrefix { offset } => TensorFault::TruncatedPrefix {
                offset: *offset,
            },
            TensorError::TruncatedText { len, offset } => TensorFault::TruncatedText {
                len: *len,
                offset: *offset,
            },
            TensorError::InvalidUtf8(f) => TensorFault::InvalidUtf8(*f),
        }
    }
}

/// The numbers in a JSON array, nested or not.
pub open spec fn json_floats(val: crate::json::Json) -> Result<Seq<Fp32>, TensorFault> {
    if let crate::json::Json::Array(a) = val {
        match crate::json::flat_numbers(a) {
            Ok(v) => Ok(v),
            Err(v) => Err(TensorFault::ExpectedNumber(v)),
        }
    } else {
        Err(TensorFault::NotArray)
    }
}

/// The strings in a JSON array, nested or not.
pub open spec fn json_strings(val: crate::json::Json) -> Result<Seq<Seq<char>>, TensorFault> {
    if let crate::json::Json::Array(a) = val {
        match crate::json::flat_strings(a) {
            Ok(v) => Ok(v),
            Err(v) => Err(TensorFault::ExpectedString(v)),
        }
    } else {
        Err(TensorFault::NotArray)
    }
}

/// Flattens a JSON array of numbers, nested or not.
pub fn flatten_json_to_f32(val: &JsonValue) -> (r: Result<Vec<Fp32>, TensorError>)
    ensures
        match r {
            Ok(v) => json_floats(val@) == Ok::<Seq<Fp32>, TensorFault>(v@),
            Err(e) => json_floats(val@) == Err::<Seq<Fp32>, TensorFault>(e@),
        },
{
    match val {
        JsonValue::Array(a) => {
            proof {
                crate::json::lemma_array_view(*a);
            }
            match flatten_numbers(a) {
                Ok(v) => Ok(v),
                Err(v) => Err(TensorError::ExpectedNumber(v)),
            }
        },
        _ => Err(TensorError::NotArray),
    }
}

/// Flattens a JSON array of strings, nested or not.
pub fn flatten_json_to_strings(val: &JsonValue) -> (r: Result<Vec<String>, TensorError>)
    ensures
        match r {
            Ok(v) => json_strings(val@) == Ok::<Seq<Seq<char>>, TensorFault>(
                crate::frames::texts(v@),
            ),
            Err(e) => json_strings(val@) == Err::<Seq<Seq<char>>, TensorFault>(e@),
        },
{
    match val {
        JsonValue::Array(a) => {
            proof {
                crate::json::lemma_array_view(*a);
            }
            match flatten_texts(a) {
                Ok(v) => Ok(v),
                Err(v) => Err(TensorError::ExpectedString(v)),
            }
        },
        _ => Err(TensorError::NotArray),
    }
}

/// Whether a dimension is positive and can be counted to.
pub open spec fn known(d: i64) -> bool {
    0 < d <= usize::MAX
}

/// The two dimensions that a shape has for `data_len` items. At most one of them may be
/// -1: it is then the quotient of `data_len` by the other.
pub open spec fn resolved(shape: Seq<i64>, data_len: usize) -> Result<
    (usize, usize),
    TensorFault,
> {
    if shape.len() != 2 {
        Err(TensorFault::NotTwoDimensional(shape))
    } else if known(shape[0]) && known(shape[1]) {
        Ok((shape[0] as usize, shape[1] as usize))
    } else if shape[0] == -1 && known(shape[1]) {
        Ok(((data_len as int / shape[1] as int) as usize, shape[1] as usize))
    } else if known(shape[0]) && shape[1] == -1 {
        Ok((shape[0] as usize, (data_len as int / shape[0] as int) as usize))
    } else {
        Err(TensorFault::InvalidShape(shape))
    }
}

fn is_known(d: i64) -> (r: bool)
    ensures
        r == known(d),
{
    d > 0 && d as u64 <= usize::MAX as u64
}

/// Resolves a shape of two dimensions, of which at most one is unknown (-1).
pub fn resolve_shape_2d(shape: &[i64], data_len: usize) -> (r: Result<(usize, usize), TensorError>)
    ensures
        match r {
            Ok(d) => resolved(shape@, data_len) == Ok::<(usize, usize), TensorFault>(d),
            Err(e) => resolved(shape@, data_len) == Err::<(usize, usize), TensorFault>(e@),
        },
{
    if shape.len() != 2 {
        return Err(TensorError::NotTwoDimensional(vstd::slice::slice_to_vec(shape)));
    }
    let d0: i64 = shape[0];
    let d1: i64 = shape[1];
    if is_known(d0) && is_known(d1) {
        Ok((d0 as usize, d1 as usize))
    } else if d0 == -1 && is_known(d1) {
        let b: usize = d1 as usize;
        Ok((data_len / b, b))
    } else if is_known(d0) && d1 == -1 {
        let a: usize = d0 as usize;
        Ok((a, data_len / a))
    } else {
        Err(TensorError::InvalidShape(vstd::slice::slice_to_vec(shape)))
    }
}

/// Whether `a * b == n`, for products of any size.
fn product_is(a: usize, b: usize, n: usize) -> (r: bool)
    ensures
        r == (a * b == n),
{
    match a.checked_mul(b) {
        Some(p) => p == n,
        None => false,
    }
}

/// The number of features in a row of `flat_len` numbers with this shape. One dimension
/// is a single row; two have to account for all numbers.
pub open spec fn num_features(flat_len: usize, shape: Seq<i64>) -> Result<usize, TensorFault> {
    if shape.len() == 1 {
        Ok(flat_len)
    } else if shape.len() == 2 {
        match resolved(shape, flat_len) {
            Ok((batch, features)) => if flat_len == batch * features {
                Ok(features)
            } else {
                Err(TensorFault::FloatLength { len: flat_len, batch, features })
            },
            Err(e) => Err(e),
        }
    } else {
        Err(TensorFault::FloatRank(shape))
    }
}

/// Checks that a flat buffer holds `batch * features` numbers, and returns the number of
/// features per row.
pub fn validate_and_get_num_features(flat_len: usize, shape: &[i64]) -> (r: Result<
    usize,
    TensorError,
>)
    ensures
        match r {
            Ok(n) => num_features(flat_len, shape@) == Ok::<usize, TensorFault>(n),
            Err(e) => num_features(flat_len, shape@) == Err::<usize, TensorFault>(e@),
        },
{
    if shape.len() == 1 {
        Ok(flat_len)
    } else if shape.len() == 2 {
        match resolve_shape_2d(shape, flat_len) {
            Ok((batch, features)) => if product_is(batch, features, flat_len) {
                Ok(features)
            } else {
                Err(TensorError::FloatLength { len: flat_len, batch, features })
            },
            Err(e) => Err(e),
        }
    } else {
        Err(TensorError::FloatRank(vstd::slice::slice_to_vec(shape)))
    }
}

/// Whether a shape asks for rows without a single item: no data, in a known number of rows
/// of unknown width.
pub open spec fn zero_width(len: int, shape: Seq<i64>) -> bool {
    len == 0 && shape.len() == 2 && known(shape[0]) && shape[1] == -1
}

/// Flat items in the rows of a shape. One dimension is a single row; two have to account
/// for all items.
pub open spec fn shaped<T>(flat: Seq<T>, shape: Seq<i64>) -> Result<Seq<Seq<T>>, TensorFault> {
    let len = flat.len() as usize;
    if shape.len() == 1 {
        Ok(seq![flat])
    } else if shape.len() == 2 {
        match resolved(shape, len) {
            Ok((batch, features)) => if flat.len() == batch * features {
                Ok(crate::inference::parse::rows(flat, features as int))
            } else {
                Err(TensorFault::CatLength { len, batch, features })
            },
            Err(e) => Err(e),
        }
    } else {
        Err(TensorFault::CatRank)
    }
}

/// Cuts flat strings into the rows of a shape.
pub fn reshape_strings(flat: Vec<String>, shape: &[i64]) -> (r: Result<
    Vec<Vec<String>>,
    TensorError,
>)
    requires
        !zero_width(flat@.len() as int, shape@),
    ensures
        match r {
            Ok(v) => shaped(crate::frames::texts(flat@), shape@) == Ok::<
                Seq<Seq<Seq<char>>>,
                TensorFault,
            >(crate::inference::text_grid(v@)),
            Err(e) => shaped(crate::frames::texts(flat@), shape@) == Err::<
                Seq<Seq<Seq<char>>>,
                TensorFault,
            >(e@),
        },
{
    let len: usize = flat.len();
    let ghost items = flat@;
    if shape.len() == 1 {
        let one: Vec<Vec<String>> = vec![flat];
        assert(crate::inference::text_grid(one@) =~= seq![crate::frames::texts(items)]);
        Ok(one)
    } else if shape.len() == 2 {
        match resolve_shape_2d(shape, len) {
            Ok((batch, features)) => if product_is(batch, features, len) {
                proof {
                    if features == 0 {
                        assert(batch * features == 0) by (nonlinear_arith)
                            requires
                                features == 0,
                        ;
                    }
                    assert(features > 0);
                    vstd::arithmetic::div_mod::lemma_mod_multiples_basic(
                        batch as int,
                        features as int,
                    );
                }
                let v = split_rows(flat, features);
                proof {
                    lemma_text_rows(items, features as int, v@);
                }
                Ok(v)
            } else {
                Err(TensorError::CatLength { len, batch, features })
            },
            Err(e) => Err(e),
        }
    } else {
        Err(TensorError::CatRank)
    }
}

/// Why features cannot be taken from a request.
#[derive(Debug)]
pub enum ExtractError {
    /// A tensor is rejected.
    Tensor(TensorError),
    /// The features would be rows without a single item.
    ZeroWidth,
}

/// What an [`ExtractError`] says.
pub enum ExtractFault {
    Tensor(TensorFault),
    ZeroWidth,
}

impl View for ExtractError {
    type V = ExtractFault;

    open spec fn view(&self) -> ExtractFault {
        match self {
            ExtractError::Tensor(e) => ExtractFault::Tensor(e@),
            ExtractError::ZeroWidth => ExtractFault::ZeroWidth,
        }
    }
}

/// Flat texts in the rows of a shape, which may not be rows without an item.
pub open spec fn shaped_texts(flat: Seq<Seq<char>>, shape: Seq<i64>) -> Result<
    Seq<Seq<Seq<char>>>,
    ExtractFault,
> {
    if zero_width(flat.len() as int, shape) {
        Err(ExtractFault::ZeroWidth)
    } else {
        match shaped(flat, shape) {
            Ok(v) => Ok(v),
            Err(e) => Err(ExtractFault::Tensor(e)),
        }
    }
}

/// Cuts flat texts into the rows of a shape.
pub fn shape_texts(flat: Vec<String>, shape: &[i64]) -> (r: Result<Vec<Vec<String>>, ExtractError>)
    ensures
        match r {
            Ok(v) => shaped_texts(crate::frames::texts(flat@), shape@) == Ok::<
                Seq<Seq<Seq<char>>>,
                ExtractFault,
            >(crate::inference::text_grid(v@)),
            Err(e) => shaped_texts(crate::frames::texts(flat@), shape@) == Err::<
                Seq<Seq<Seq<char>>>,
                ExtractFault,
            >(e@),
        },
{
    if flat.len() == 0 && shape.len() == 2 && is_known(shape[0]) && shape[1] == -1 {
        return Err(ExtractError::ZeroWidth);
    }
    match reshape_strings(flat, shape) {
        Ok(v) => Ok(v),
        Err(e) => Err(ExtractError::Tensor(e)),
    }
}

proof fn lemma_text_rows(flat: Seq<String>, cols: int, v: Seq<Vec<String>>)
    requires
        cols > 0,
        crate::inference::grid(v) == crate::inference::parse::rows(flat, cols),
    ensures
        crate::inference::text_grid(v) == crate::inference::parse::rows(
            crate::frames::texts(flat),
            cols,
        ),
{
    let chars = crate::frames::texts(flat);
    let want = crate::inference::parse::rows(chars, cols);
    assert(v.len() == crate::inference::parse::rows(flat, cols).len());
    assert forall|i: int| 0 <= i < want.len() implies crate::inference::text_grid(v)[i]
        == want[i] by {
        crate::inference::parse::lemma_chunk_bounds(flat.len() as int, cols, i);
        assert(v[i]@ == crate::inference::grid(v)[i]);
        assert(want[i] =~= crate::frames::texts(v[i]@));
    }
    assert(crate::inference::text_grid(v) =~= want);
}

/// The numbers that raw little-endian bytes hold.
pub open spec fn raw_numbers(raw: Seq<u8>, t: NumericType) -> Result<Seq<Fp32>, TensorFault> {
    if raw.len() as int % t.width() != 0 {
        Err(TensorFault::RaggedBytes { len: raw.len() as usize, width: t.width() as usize })
    } else {
        Ok(crate::inference::parse::raw_elements(raw, t))
    }
}

/// Decodes raw little-endian binary32 numbers.
pub fn raw_bytes_to_f32(raw: &[u8]) -> (r: Result<Vec<Fp32>, TensorError>)
    ensures
        match r {
            Ok(v) => raw_numbers(raw@, NumericType::Fp32) == Ok::<Seq<Fp32>, TensorFault>(v@),
            Err(e) => raw_numbers(raw@, NumericType::Fp32) == Err::<Seq<Fp32>, TensorFault>(e@),
        },
{
    match decode_raw_floats(raw, "FP32") {
        Ok(v) => Ok(v),
        Err(_) => Err(TensorError::RaggedBytes { len: raw.len(), width: 4 }),
    }
}

/// Decodes raw little-endian binary64 numbers, and rounds them to binary32.
pub fn raw_bytes_f64_to_f32(raw: &[u8]) -> (r: Result<Vec<Fp32>, TensorError>)
    ensures
        match r {
            Ok(v) => raw_numbers(raw@, NumericType::Fp64) == Ok::<Seq<Fp32>, TensorFault>(v@),
            Err(e) => raw_numbers(raw@, NumericType::Fp64) == Err::<Seq<Fp32>, TensorFault>(e@),
        },
{
    proof {
        reveal_strlit("FP32");
        reveal_strlit("FP64");
        assert("FP32"@[2] != "FP64"@[2]);
    }
    match decode_raw_floats(raw, "FP64") {
        Ok(v) => Ok(v),
        Err(_) => Err(TensorError::RaggedBytes { len: raw.len(), width: 8 }),
    }
}

/// The strings that raw bytes hold.
pub open spec fn raw_texts(raw: Seq<u8>) -> Result<Seq<Seq<char>>, TensorFault> {
    let (found, end) = crate::frames::scan(raw, 0);
    match end {
        FrameEnd::Clean => Ok(found),
        FrameEnd::ShortPrefix { offset } => Err(TensorFault::TruncatedPrefix { offset }),
        FrameEnd::ShortPayload { len, offset } => Err(TensorFault::TruncatedText { len, offset }),
        FrameEnd::BadText { fault } => Err(TensorFault::InvalidUtf8(fault)),
    }
}

/// Decodes the raw encoding of text: each element follows its length, a little-endian
/// number of four bytes.
pub fn raw_bytes_to_strings(raw: &[u8]) -> (r: Result<Vec<String>, TensorError>)
    ensures
        match r {
            Ok(v) => raw_texts(raw@) == Ok::<Seq<Seq<char>>, TensorFault>(
                crate::frames::texts(v@),
            ),
            Err(e) => raw_texts(raw@) == Err::<Seq<Seq<char>>, TensorFault>(e@),
        },
{
    let (found, end) = scan_strings(raw);
    match end {
        FrameEnd::Clean => Ok(found),
        FrameEnd::ShortPrefix { offset } => Err(TensorError::TruncatedPrefix { offset }),
        FrameEnd::ShortPayload { len, offset } => Err(TensorError::TruncatedText { len, offset }),
        FrameEnd::BadText { fault } => Err(TensorError::InvalidUtf8(fault)),
    }
}

/// The shape of a flat vector of predictions.
pub open spec fn shape_of(predictions_len: usize, dimensions: usize) -> Seq<i64> {
    if dimensions <= 1 {
        seq![predictions_len as i64]
    } else {
        seq![(predictions_len as int / dimensions as int) as usize as i64, dimensions as i64]
    }
}

/// The shape of the response for a flat vector of predictions, of which the model makes
/// `dimensions` for each row.
pub fn prediction_shape(predictions_len: usize, dimensions: usize) -> (shape: Vec<i64>)
    ensures
        shape@ == shape_of(predictions_len, dimensions),
{
    if dimensions <= 1 {
        vec![predictions_len as i64]
    } else {
        let batch: usize = predictions_len / dimensions;
        vec![batch as i64, dimensions as i64]
    }
}

/// Numbers that pass the check fill their rows: the buffer is a whole number of rows of
/// the returned width.
pub proof fn law_checked_numbers_fill_rows(flat_len: usize, shape: Seq<i64>)
    requires
        num_features(flat_len, shape) is Ok,
        num_features(flat_len, shape)->Ok_0 > 0,
    ensures
        flat_len as int % num_features(flat_len, shape)->Ok_0 as int == 0,
{
    let n = num_features(flat_len, shape)->Ok_0 as int;
    if shape.len() == 1 {
        vstd::arithmetic::div_mod::lemma_mod_self_0(n);
    } else {
        let batch = resolved(shape, flat_len)->Ok_0.0 as int;
        vstd::arithmetic::div_mod::lemma_mod_multiples_basic(batch, n);
    }
}

/// Cutting strings into rows loses, adds and moves nothing.
pub proof fn law_rows_keep_strings<T>(flat: Seq<T>, shape: Seq<i64>)
    requires
        flat.len() <= usize::MAX,
        !zero_width(flat.len() as int, shape),
        shaped(flat, shape) is Ok,
    ensures
        shaped(flat, shape)->Ok_0.flatten() == flat,
{
    if shape.len() == 1 {
        seq![flat].lemma_flatten_one_element();
    } else {
        let (batch, features) = resolved(shape, flat.len() as usize)->Ok_0;
        if features == 0 {
            assert(batch * features == 0) by (nonlinear_arith)
                requires
                    features == 0,
            ;
        }
        vstd::arithmetic::div_mod::lemma_mod_multiples_basic(batch as int, features as int);
        crate::inference::parse::lemma_rows_flatten(flat, features as int);
    }
}

/// A dimension that is inferred is the one that fits: where the data is a whole number of
/// rows, the two dimensions account for all of it.
pub proof fn law_inferred_dimension_fits(shape: Seq<i64>, data_len: usize)
    requires
        shape.len() == 2,
        shape[0] == -1 && known(shape[1]) && data_len as int % shape[1] as int == 0 || known(
            shape[0],
        ) && shape[1] == -1 && data_len as int % shape[0] as int == 0,
    ensures
        resolved(shape, data_len) is Ok,
        resolved(shape, data_len)->Ok_0.0 * resolved(shape, data_len)->Ok_0.1 == data_len,
{
    let d = if shape[0] == -1 {
        shape[1] as int
    } else {
        shape[0] as int
    };
    let q = data_len as int / d;
    vstd::arithmetic::div_mod::lemma_fundamental_div_mod(data_len as int, d);
    assert(0 <= q <= data_len) by (nonlinear_arith)
        requires
            data_len as int == d * q + 0,
            d > 0,
            data_len >= 0,
    ;
    assert(q * d == d * q) by (nonlinear_arith);
}

/// The shape of a response accounts for all predictions of a batch.
pub proof fn law_prediction_shape_is_exact(batch: usize, dimensions: usize, len: usize)
    requires
        dimensions > 1,
        len == batch * dimensions,
        len <= i64::MAX,
    ensures
        shape_of(len, dimensions) == seq![batch as i64, dimensions as i64],
{
    vstd::arithmetic::div_mod::lemma_div_multiples_vanish(batch as int, dimensions as int);
    assert(batch * dimensions == dimensions * batch) by (nonlinear_arith);
    assert(len as int / dimensions as int == batch);
}

/// Both front ends read raw bytes alike: what one of them takes for strings or numbers, the
/// other takes for the same ones.
pub proof fn law_front_ends_read_alike(raw: Seq<u8>)
    ensures
        raw_texts(raw) is Ok <==> crate::inference::parse::raw_strings(raw) is Ok,
        raw_texts(raw) is Ok ==> raw_texts(raw)->Ok_0 == crate::inference::parse::raw_strings(
            raw,
        )->Ok_0,
        raw_numbers(raw, NumericType::Fp32) is Ok <==> crate::inference::parse::raw_floats(
            raw,
            "FP32"@,
        ) is Ok,
        raw_numbers(raw, NumericType::Fp32) is Ok ==> raw_numbers(raw, NumericType::Fp32)->Ok_0
            == crate::inference::parse::raw_floats(raw, "FP32"@)->Ok_0,
        raw_numbers(raw, NumericType::Fp64) is Ok <==> crate::inference::parse::raw_floats(
            raw,
            "FP64"@,
        ) is Ok,
        raw_numbers(raw, NumericType::Fp64) is Ok ==> raw_numbers(raw, NumericType::Fp64)->Ok_0
            == crate::inference::parse::raw_floats(raw, "FP64"@)->Ok_0,
{
    reveal_strlit("FP32");
    reveal_strlit("FP64");
    assert("FP32"@[2] != "FP64"@[2]);
}

/// A shape of two dimensions in numbers. Two positive dimensions are taken as they are. Where
/// one is -1, it is the number of whole rows, or the whole width, that the items have room for.
/// Any other shape is rejected.
pub proof fn law_resolved_in_numbers(shape: Seq<i64>, n: usize)
    ensures
        shape.len() != 2 ==> resolved(shape, n) == Err::<(usize, usize), TensorFault>(
            TensorFault::NotTwoDimensional(shape),
        ),
        shape.len() == 2 && 0 < shape[0] <= usize::MAX && 0 < shape[1] <= usize::MAX ==> {
            &&& resolved(shape, n) matches Ok(d)
            &&& d.0 == shape[0]
            &&& d.1 == shape[1]
        },
        shape.len() == 2 && shape[0] == -1 && 0 < shape[1] <= usize::MAX ==> {
            &&& resolved(shape, n) matches Ok(d)
            &&& d.1 == shape[1]
            &&& d.0 * shape[1] <= n < d.0 * shape[1] + shape[1]
        },
        shape.len() == 2 && 0 < shape[0] <= usize::MAX && shape[1] == -1 ==> {
            &&& resolved(shape, n) matches Ok(d)
            &&& d.0 == shape[0]
            &&& d.1 * shape[0] <= n < d.1 * shape[0] + shape[0]
        },
        shape.len() == 2 && !(0 < shape[0] <= usize::MAX && 0 < shape[1] <= usize::MAX) && !(
        shape[0] == -1 && 0 < shape[1] <= usize::MAX) && !(0 < shape[0] <= usize::MAX && shape[1]
            == -1) ==> resolved(shape, n) == Err::<(usize, usize), TensorFault>(
            TensorFault::InvalidShape(shape),
        ),
{
    if shape.len() == 2 {
        if known(shape[0]) {
            lemma_quotient(n as int, shape[0] as int);
        }
        if known(shape[1]) {
            lemma_quotient(n as int, shape[1] as int);
        }
    }
}

proof fn lemma_quotient(n: int, d: int)
    requires
        n >= 0,
        d > 0,
    ensures
        0 <= n / d <= n,
        (n / d) * d <= n < (n / d) * d + d,
        (n / d) * d == n <==> n % d == 0,
{
    let q = n / d;
    vstd::arithmetic::div_mod::lemma_fundamental_div_mod(n, d);
    vstd::arithmetic::div_mod::lemma_mod_bound(n, d);
    vstd::arithmetic::div_mod::lemma_div_pos_is_pos(n, d);
    assert(q * d == d * q) by (nonlinear_arith);
    assert(q <= q * d) by (nonlinear_arith)
        requires
            q >= 0,
            d > 0,
    ;
}

/// The number of features in numbers. A shape of one dimension is a single row of all numbers.
/// One of two positive dimensions has to multiply up to their number, and one with an unknown
/// dimension has to have a known one that divides it.
pub proof fn law_num_features_in_numbers(n: usize, shape: Seq<i64>)
    ensures
        shape.len() == 1 ==> num_features(n, shape) == Ok::<usize, TensorFault>(n),
        shape.len() != 1 && shape.len() != 2 ==> num_features(n, shape) == Err::<
            usize,
            TensorFault,
        >(TensorFault::FloatRank(shape)),
        shape.len() == 2 && 0 < shape[0] <= usize::MAX && 0 < shape[1] <= usize::MAX ==> {
            &&& shape[0] * shape[1] == n ==> (num_features(n, shape) matches Ok(f) && f
                == shape[1])
            &&& shape[0] * shape[1] != n ==> num_features(n, shape) == Err::<usize, TensorFault>(
                TensorFault::FloatLength {
                    len: n,
                    batch: shape[0] as usize,
                    features: shape[1] as usize,
                },
            )
        },
        shape.len() == 2 && shape[0] == -1 && 0 < shape[1] <= usize::MAX ==> {
            &&& n as int % shape[1] as int == 0 ==> (num_features(n, shape) matches Ok(f) && f
                == shape[1])
            &&& n as int % shape[1] as int != 0 ==> {
                &&& num_features(n, shape) matches Err(
                    TensorFault::FloatLength { len, batch, features },
                )
                &&& len == n
                &&& features == shape[1]
                &&& batch * shape[1] < n < batch * shape[1] + shape[1]
            }
        },
        shape.len() == 2 && 0 < shape[0] <= usize::MAX && shape[1] == -1 ==> {
            &&& n as int % shape[0] as int == 0 ==> (num_features(n, shape) matches Ok(f) && f
                * shape[0] == n)
            &&& n as int % shape[0] as int != 0 ==> {
                &&& num_features(n, shape) matches Err(
                    TensorFault::FloatLength { len, batch, features },
                )
                &&& len == n
                &&& batch == shape[0]
                &&& features * shape[0] < n < features * shape[0] + shape[0]
            }
        },
        shape.len() == 2 && !(0 < shape[0] <= usize::MAX && 0 < shape[1] <= usize::MAX) && !(
        shape[0] == -1 && 0 < shape[1] <= usize::MAX) && !(0 < shape[0] <= usize::MAX && shape[1]
            == -1) ==> num_features(n, shape) == Err::<usize, TensorFault>(
            TensorFault::InvalidShape(shape),
        ),
{
    if shape.len() == 2 {
        if known(shape[0]) {
            lemma_quotient(n as int, shape[0] as int);
            let q = n as int / shape[0] as int;
            assert(shape[0] * q == q * shape[0]) by (nonlinear_arith);
        }
        if known(shape[1]) {
            lemma_quotient(n as int, shape[1] as int);
        }
    }
}

/// Rows have the shape that was asked for. Where a shape of two dimensions is accepted, there
/// are as many rows as its first dimension says and each has as many items as the second says;
/// a dimension that is -1 is the one with which both account for all items. Item `j` of row `i`
/// stands `i` rows and `j` items into the data.
pub proof fn law_rows_have_the_shape<T>(flat: Seq<T>, shape: Seq<i64>)
    requires
        flat.len() <= usize::MAX,
        shape.len() == 2,
        !(flat.len() == 0 && shape[0] > 0 && shape[1] == -1),
        shaped(flat, shape) is Ok,
    ensures
        ({
            let v = shaped(flat, shape)->Ok_0;
            let (batch, features) = resolved(shape, flat.len() as usize)->Ok_0;
            &&& features > 0
            &&& batch * features == flat.len()
            &&& v.len() == batch
            &&& shape[0] > 0 ==> v.len() == shape[0]
            &&& forall|i: int| 0 <= i < v.len() ==> (#[trigger] v[i]).len() == features
            &&& shape[1] > 0 ==> features == shape[1]
            &&& shape[1] > 0 ==> v.len() * shape[1] == flat.len()
            &&& forall|i: int, j: int|
                0 <= i < v.len() && 0 <= j < features ==> (#[trigger] v[i][j]) == flat[i * features
                    + j]
        }),
{
    let (batch, features) = resolved(shape, flat.len() as usize)->Ok_0;
    let n = flat.len() as int;
    let w = features as int;
    if features == 0 {
        assert(batch * features == 0) by (nonlinear_arith)
            requires
                features == 0,
        ;
    }
    vstd::arithmetic::div_mod::lemma_div_by_multiple(batch as int, w);
    let v = crate::inference::parse::rows(flat, w);
    assert(v.len() == batch);
    assert forall|i: int| 0 <= i < v.len() implies (#[trigger] v[i]).len() == w by {
        crate::inference::parse::lemma_chunk_bounds(n, w, i);
    }
    assert forall|i: int, j: int| 0 <= i < v.len() && 0 <= j < w implies (#[trigger] v[i][j])
        == flat[i * w + j] by {
        crate::inference::parse::lemma_chunk_bounds(n, w, i);
    }
}

/// Which shapes are accepted for texts, and what is said of the others. One dimension makes a
/// single row.
pub proof fn law_accepted_text_shapes(flat: Seq<Seq<char>>, shape: Seq<i64>)
    requires
        flat.len() <= usize::MAX,
    ensures
        shape.len() == 1 ==> shaped_texts(flat, shape) == Ok::<
            Seq<Seq<Seq<char>>>,
            ExtractFault,
        >(seq![flat]),
        shape.len() != 1 && shape.len() != 2 ==> shaped_texts(flat, shape) == Err::<
            Seq<Seq<Seq<char>>>,
            ExtractFault,
        >(ExtractFault::Tensor(TensorFault::CatRank)),
        shape.len() == 2 && flat.len() == 0 && 0 < shape[0] <= usize::MAX && shape[1] == -1
            ==> shaped_texts(flat, shape) == Err::<Seq<Seq<Seq<char>>>, ExtractFault>(
            ExtractFault::ZeroWidth,
        ),
        shape.len() == 2 && !(flat.len() == 0 && 0 < shape[0] <= usize::MAX && shape[1] == -1)
            ==> match resolved(shape, flat.len() as usize) {
            Err(e) => shaped_texts(flat, shape) == Err::<Seq<Seq<Seq<char>>>, ExtractFault>(
                ExtractFault::Tensor(e),
            ),
            Ok((batch, features)) => {
                &&& batch * features == flat.len() ==> shaped_texts(flat, shape) is Ok
                    && shaped_texts(flat, shape)->Ok_0 == shaped(flat, shape)->Ok_0
                &&& batch * features == flat.len() ==> shaped(flat, shape) is Ok
                &&& batch * features != flat.len() ==> shaped_texts(flat, shape) == Err::<
                    Seq<Seq<Seq<char>>>,
                    ExtractFault,
                >(
                    ExtractFault::Tensor(
                        TensorFault::CatLength { len: flat.len() as usize, batch, features },
                    ),
                )
            },
        },
{
}

/// A JSON array is read value by value, as numbers or as strings. What is no array is rejected,
/// and so is a value of the wrong kind: the first of them is named.
pub proof fn law_json_is_read_one_by_one(
    a: Seq<crate::json::Json>,
    value: crate::json::Json,
    k: int,
)
    ensures
        !(value is Array) ==> json_floats(value) == Err::<Seq<Fp32>, TensorFault>(
            TensorFault::NotArray,
        ),
        !(value is Array) ==> json_strings(value) == Err::<Seq<Seq<char>>, TensorFault>(
            TensorFault::NotArray,
        ),
        ({
            let s = crate::json::leaves(a);
            let r = json_floats(crate::json::Json::Array(a));
            &&& (forall|i: int| 0 <= i < s.len() ==> #[trigger] s[i] is Number) ==> {
                &&& r matches Ok(v)
                &&& v.len() == s.len()
                &&& forall|i: int|
                    0 <= i < v.len() ==> (#[trigger] v[i]) == s[i]->Number_0.fp32()
            }
            &&& 0 <= k < s.len() && !(s[k] is Number) && (forall|i: int|
                0 <= i < k ==> #[trigger] s[i] is Number) ==> r == Err::<Seq<Fp32>, TensorFault>(
                TensorFault::ExpectedNumber(s[k]),
            )
        }),
        ({
            let s = crate::json::leaves(a);
            let r = json_strings(crate::json::Json::Array(a));
            &&& (forall|i: int| 0 <= i < s.len() ==> #[trigger] s[i] is String) ==> {
                &&& r matches Ok(v)
                &&& v.len() == s.len()
                &&& forall|i: int| 0 <= i < v.len() ==> (#[trigger] v[i]) == s[i]->String_0
            }
            &&& 0 <= k < s.len() && !(s[k] is String) && (forall|i: int|
                0 <= i < k ==> #[trigger] s[i] is String) ==> r == Err::<
                Seq<Seq<char>>,
                TensorFault,
            >(TensorFault::ExpectedString(s[k]))
        }),
{
    crate::json::law_numbers_are_read_one_by_one(a, k);
    crate::json::law_strings_are_read_one_by_one(a, k);
}

/// Raw numbers are read back: binary32 numbers as they were, binary64 numbers rounded.
pub proof fn law_raw_numbers_read_back(v: Seq<Fp32>, w: Seq<crate::float::Fp64>)
    ensures
        raw_numbers(
            crate::inference::parse::numbers_bytes(v.map_values(|x: Fp32| x.bits as nat), 4),
            NumericType::Fp32,
        ) == Ok::<Seq<Fp32>, TensorFault>(v),
        raw_numbers(
            crate::inference::parse::numbers_bytes(
                w.map_values(|x: crate::float::Fp64| x.bits as nat),
                8,
            ),
            NumericType::Fp64,
        ) == Ok::<Seq<Fp32>, TensorFault>(
            w.map_values(
                |x: crate::float::Fp64| Fp32 { bits: crate::float::fp32_of_fp64(x) as u32 },
            ),
        ),
{
    crate::inference::parse::law_raw_fp32_reads_back(v);
    crate::inference::parse::law_raw_fp64_reads_back(w);
    law_front_ends_read_alike(
        crate::inference::parse::numbers_bytes(v.map_values(|x: Fp32| x.bits as nat), 4),
    );
    law_front_ends_read_alike(
        crate::inference::parse::numbers_bytes(
            w.map_values(|x: crate::float::Fp64| x.bits as nat),
            8,
        ),
    );
}

/// Raw bytes that are not a whole number of elements are no numbers.
pub proof fn law_ragged_bytes_are_rejected(raw: Seq<u8>)
    requires
        raw.len() <= usize::MAX,
    ensures
        raw.len() % 4 != 0 ==> raw_numbers(raw, NumericType::Fp32) == Err::<
            Seq<Fp32>,
            TensorFault,
        >(TensorFault::RaggedBytes { len: raw.len() as usize, width: 4 }),
        raw.len() % 4 == 0 ==> raw_numbers(raw, NumericType::Fp32) is Ok,
        raw.len() % 8 != 0 ==> raw_numbers(raw, NumericType::Fp64) == Err::<
            Seq<Fp32>,
            TensorFault,
        >(TensorFault::RaggedBytes { len: raw.len() as usize, width: 8 }),
        raw.len() % 8 == 0 ==> raw_numbers(raw, NumericType::Fp64) is Ok,
{
}

/// What is wrong with raw text, and where: bytes behind whole strings that are no length, a
/// length that is larger than what follows, or a string that is not UTF-8. Whole strings alone
/// are read back.
pub proof fn law_raw_texts_read_back(ss: Seq<Seq<char>>, tail: Seq<u8>)
    requires
        crate::frames::frameable(ss),
        crate::frames::framed_all(ss).len() + tail.len() <= usize::MAX,
    ensures
        raw_texts(crate::frames::framed_all(ss)) == Ok::<Seq<Seq<char>>, TensorFault>(ss),
        0 < tail.len() < 4 ==> raw_texts(crate::frames::framed_all(ss) + tail) == Err::<
            Seq<Seq<char>>,
            TensorFault,
        >(TensorFault::TruncatedPrefix { offset: crate::frames::framed_all(ss).len() as usize }),
        tail.len() >= 4 ==> {
            let len = tail[0] + 256 * tail[1] + 65536 * tail[2] + 16777216 * tail[3];
            &&& len > tail.len() - 4 ==> raw_texts(crate::frames::framed_all(ss) + tail) == Err::<
                Seq<Seq<char>>,
                TensorFault,
            >(
                TensorFault::TruncatedText {
                    len: len as usize,
                    offset: (crate::frames::framed_all(ss).len() + 4) as usize,
                },
            )
            &&& len <= tail.len() - 4 ==> (crate::text::decoded(tail.subrange(4, 4 + len))
                matches Err(fault) ==> raw_texts(crate::frames::framed_all(ss) + tail) == Err::<
                Seq<Seq<char>>,
                TensorFault,
            >(TensorFault::InvalidUtf8(fault)))
        },
{
    crate::frames::law_framed_reads_back(ss);
    crate::frames::law_scan_faults(ss, tail);
}

/// The shape of a response in numbers: the number of predictions where the model makes one for
/// each row, and otherwise the number of whole rows and the number of predictions for each.
pub proof fn law_prediction_shape_in_numbers(len: usize, dimensions: usize)
    requires
        len <= i64::MAX,
        dimensions <= i64::MAX,
    ensures
        dimensions <= 1 ==> shape_of(len, dimensions).len() == 1 && shape_of(len, dimensions)[0]
            == len,
        dimensions > 1 ==> {
            let shape = shape_of(len, dimensions);
            &&& shape.len() == 2
            &&& shape[1] == dimensions
            &&& shape[0] * dimensions <= len < shape[0] * dimensions + dimensions
        },
{
    if dimensions > 1 {
        lemma_quotient(len as int, dimensions as int);
    }
}

/// An error says what its fields hold.
pub proof fn law_error_is_its_fields(
    v: JsonValue,
    s: Vec<i64>,
    len: usize,
    batch: usize,
    features: usize,
    f: Utf8Fault,
)
    ensures
        TensorError::NotArray@ == TensorFault::NotArray,
        TensorError::CatRank@ == TensorFault::CatRank,
        TensorError::ExpectedNumber(v)@ == TensorFault::ExpectedNumber(v@),
        TensorError::ExpectedString(v)@ == TensorFault::ExpectedString(v@),
        TensorError::InvalidShape(s)@ == TensorFault::InvalidShape(s@),
        TensorError::NotTwoDimensional(s)@ == TensorFault::NotTwoDimensional(s@),
        TensorError::FloatRank(s)@ == TensorFault::FloatRank(s@),
        (TensorError::FloatLength { len, batch, features })@ == (TensorFault::FloatLength {
            len,
            batch,
            features,
        }),
        (TensorError::CatLength { len, batch, features })@ == (TensorFault::CatLength {
            len,
            batch,
            features,
        }),
        (TensorError::RaggedBytes { len, width: features })@ == (TensorFault::RaggedBytes {
            len,
            width: features,
        }),
        (TensorError::TruncatedPrefix { offset: batch })@ == (TensorFault::TruncatedPrefix {
            offset: batch,
        }),
        (TensorError::TruncatedText { len, offset: batch })@ == (TensorFault::TruncatedText {
            len,
            offset: batch,
        }),
        TensorError::InvalidUtf8(f)@ == TensorFault::InvalidUtf8(f),
        ExtractError::Tensor(TensorError::InvalidShape(s))@ == ExtractFault::Tensor(
            TensorFault::InvalidShape(s@),
        ),
        ExtractError::ZeroWidth@ == ExtractFault::ZeroWidth,
{
}

/// The check of a flat buffer, called: where it accepts a shape of two dimensions, the number of
/// features that it returns divides the buffer into as many rows as a positive first dimension
/// says, and is the second dimension where that is positive.
pub proof fn law_checked_width(flat_len: usize, shape: &[i64], r: Result<usize, TensorError>)
    requires
        call_ensures(validate_and_get_num_features, (flat_len, shape), r),
    ensures
        shape@.len() == 1 ==> (r matches Ok(n) && n == flat_len),
        shape@.len() == 2 && shape@[1] > 0 ==> (r matches Ok(n) ==> n == shape@[1]),
        shape@.len() == 2 && shape@[0] > 0 ==> (r matches Ok(n) ==> shape@[0] * n == flat_len),
        shape@.len() != 1 && shape@.len() != 2 ==> r is Err,
        r is Ok && shape@.len() == 2 ==> shape@[0] > 0 || shape@[0] == -1,
        r is Ok && shape@.len() == 2 ==> shape@[1] > 0 || shape@[1] == -1,
{
    law_num_features_in_numbers(flat_len, shape@);
    if shape@.len() == 2 && r is Ok {
        let n = r->Ok_0;
        assert(shape@[0] * n == n * shape@[0]) by (nonlinear_arith);
    }
}

/// Strings that are cut into rows, called: there are as many rows as a positive first dimension
/// says, each has as many strings as a positive second dimension says, and they stand where they
/// stood in the data.
pub proof fn law_cut_strings_stay_in_order(
    flat: Vec<String>,
    shape: &[i64],
    r: Result<Vec<Vec<String>>, TensorError>,
)
    requires
        call_ensures(reshape_strings, (flat, shape), r),
        flat@.len() <= usize::MAX,
        shape@.len() == 2,
        shape@[1] > 0,
    ensures
        r matches Ok(v) ==> {
            &&& shape@[0] > 0 ==> v@.len() == shape@[0]
            &&& v@.len() * shape@[1] == flat@.len()
            &&& forall|i: int| 0 <= i < v@.len() ==> (#[trigger] v@[i])@.len() == shape@[1]
            &&& forall|i: int, j: int|
                0 <= i < v@.len() && 0 <= j < shape@[1] ==> (#[trigger] v@[i]@[j])@ == flat@[i
                    * shape@[1] + j]@
        },
{
    let texts = crate::frames::texts(flat@);
    if let Ok(v) = r {
        law_rows_have_the_shape(texts, shape@);
        let g = crate::inference::text_grid(v@);
        assert(g.len() == v@.len());
        assert forall|i: int| 0 <= i < v@.len() implies (#[trigger] v@[i])@.len() == shape@[1] by {
            assert(g[i].len() == v@[i]@.len());
        }
        assert forall|i: int, j: int| 0 <= i < v@.len() && 0 <= j < shape@[1] implies (
        #[trigger] v@[i]@[j])@ == flat@[i * shape@[1] + j]@ by {
            let n = v@.len() as int;
            let w = shape@[1] as int;
            assert(v@[i]@.len() == w);
            assert(g[i][j] == v@[i]@[j]@);
            assert(g[i][j] == texts[i * w + j]);
            assert(0 <= i * w + j < n * w) by (nonlinear_arith)
                requires
                    0 <= i < n,
                    0 <= j < w,
            ;
        }
    }
}

} // verus!
