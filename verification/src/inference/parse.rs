//! Tensors of a request, from JSON or raw bytes to rows of features.
use vstd::prelude::*;

use crate::float::{Fp32, Fp64};
use crate::frames::{scan_strings, FrameEnd};
use crate::inference::InferInputs;
use crate::json::{flatten_numbers, flatten_texts, JsonValue};
use crate::text::{read_i32, read_i64, read_u32, read_u64, same_text, Utf8Fault};

verus! {

/// A named tensor as a request holds it.
#[derive(Debug)]
pub struct RawTensor {
    pub name: String,
    pub datatype: String,
    pub shape: Vec<i64>,
    pub data: TensorData,
}

/// The data of a tensor, flat and in row-major order.
#[derive(Debug)]
pub enum TensorData {
    Floats(Vec<Fp32>),
    Strings(Vec<String>),
    RawBytes(Vec<u8>),
}

/// What a tensor's data is.
pub enum Content {
    Floats(Seq<Fp32>),
    Strings(Seq<Seq<char>>),
    RawBytes(Seq<u8>),
}

impl View for TensorData {
    type V = Content;

    open spec fn view(&self) -> Content {
        match self {
            TensorData::Floats(v) => Content::Floats(v@),
            TensorData::Strings(v) => Content::Strings(crate::frames::texts(v@)),
            TensorData::RawBytes(v) => Content::RawBytes(v@),
        }
    }
}

/// What a tensor is.
pub struct Tensor {
    pub name: Seq<char>,
    pub datatype: Seq<char>,
    pub shape: Seq<i64>,
    pub data: Content,
}

impl View for RawTensor {
    type V = Tensor;

    open spec fn view(&self) -> Tensor {
        Tensor {
            name: self.name@,
            datatype: self.datatype@,
            shape: self.shape@,
            data: self.data@,
        }
    }
}

/// What the tensors are.
pub open spec fn tensors_of(v: Seq<RawTensor>) -> Seq<Tensor> {
    v.map_values(|t: RawTensor| t@)
}

/// Why a tensor is rejected.
#[derive(Debug)]
pub enum ParseError {
    /// The JSON data is not an array.
    NotArray,
    /// A numeric tensor holds this value.
    ExpectedNumber(JsonValue),
    /// A text tensor holds this value.
    ExpectedString(JsonValue),
    /// JSON data cannot have this datatype.
    UnsupportedDatatype(String),
    /// Raw bytes cannot be decoded to numbers of this datatype.
    UndecodableDatatype(String),
    /// The raw bytes are not a whole number of elements.
    RaggedBytes { len: usize, width: usize },
    /// A length prefix reaches behind the end of the bytes.
    StringOverrun,
    /// Bytes are left behind the last string.
    TrailingBytes,
    /// A string is not UTF-8.
    InvalidUtf8(Utf8Fault),
    /// The shape asks for this many columns.
    NonPositiveColumns(i64),
    /// The data does not fill its last row.
    IndivisibleLength { len: usize, cols: i64 },
    /// The named tensor has a numeric datatype and text data.
    NumericDataExpected(String),
    /// The named tensor has a text datatype and numeric data.
    StringDataExpected(String),
}

/// What a [`ParseError`] says.
pub enum ParseFault {
    NotArray,
    ExpectedNumber(crate::json::Json),
    ExpectedString(crate::json::Json),
    UnsupportedDatatype(Seq<char>),
    UndecodableDatatype(Seq<char>),
    RaggedBytes { len: usize, width: usize },
    StringOverrun,
    TrailingBytes,
    InvalidUtf8(Utf8Fault),
    NonPositiveColumns(i64),
    IndivisibleLength { len: usize, cols: i64 },
    NumericDataExpected(Seq<char>),
    StringDataExpected(Seq<char>),
}

impl View for ParseError {
    type V = ParseFault;

    open spec fn view(&self) -> ParseFault {
        match self {
            ParseError::NotArray => ParseFault::NotArray,
            ParseError::ExpectedNumber(v) => ParseFault::ExpectedNumber(v@),
            ParseError::ExpectedString(v) => ParseFault::ExpectedString(v@),
            ParseError::UnsupportedDatatype(s) => ParseFault::UnsupportedDatatype(s@),
            ParseError::UndecodableDatatype(s) => ParseFault::UndecodableDatatype(s@),
            ParseError::RaggedBytes { len, width } => ParseFault::RaggedBytes {
                len: *len,
                width: *width,
            },
            ParseError::StringOverrun => ParseFault::StringOverrun,
            ParseError::TrailingBytes => ParseFault::TrailingBytes,
            ParseError::InvalidUtf8(f) => ParseFault::InvalidUtf8(*f),
            ParseError::NonPositiveColumns(n) => ParseFault::NonPositiveColumns(*n),
            ParseError::IndivisibleLength { len, cols } => ParseFault::IndivisibleLength {
                len: *len,
                cols: *cols,
            },
            ParseError::NumericDataExpected(s) => ParseFault::NumericDataExpected(s@),
            ParseError::StringDataExpected(s) => ParseFault::StringDataExpected(s@),
        }
    }
}

/// The element type of a numeric tensor.
#[derive(Clone, Copy, Debug, PartialEq, Eq, Structural)]
pub enum NumericType {
    Fp32,
    Fp64,
    Int32,
    Int64,
    Uint32,
    Uint64,
}

/// The numeric type that a datatype names.
pub open spec fn numeric_type(datatype: Seq<char>) -> Option<NumericType> {
    if datatype == "FP32"@ {
        Some(NumericType::Fp32)
    } else if datatype == "FP64"@ {
        Some(NumericType::Fp64)
    } else if datatype == "INT32"@ {
        Some(NumericType::Int32)
    } else if datatype == "INT64"@ {
        Some(NumericType::Int64)
    } else if datatype == "UINT32"@ {
        Some(NumericType::Uint32)
    } else if datatype == "UINT64"@ {
        Some(NumericType::Uint64)
    } else {
        None
    }
}

/// Whether a datatype names text.
pub open spec fn is_text_type(datatype: Seq<char>) -> bool {
    datatype == "BYTES"@ || datatype == "STRING"@
}

/// The numeric type that `datatype` names, if any.
pub fn parse_numeric_type(datatype: &str) -> (r: Option<NumericType>)
    ensures
        r == numeric_type(datatype@),
{
    if same_text(datatype, "FP32") {
        Some(NumericType::Fp32)
    } else if same_text(datatype, "FP64") {
        Some(NumericType::Fp64)
    } else if same_text(datatype, "INT32") {
        Some(NumericType::Int32)
    } else if same_text(datatype, "INT64") {
        Some(NumericType::Int64)
    } else if same_text(datatype, "UINT32") {
        Some(NumericType::Uint32)
    } else if same_text(datatype, "UINT64") {
        Some(NumericType::Uint64)
    } else {
        None
    }
}

/// Whether `datatype` names text.
pub fn names_text(datatype: &str) -> (r: bool)
    ensures
        r == is_text_type(datatype@),
{
    same_text(datatype, "BYTES") || same_text(datatype, "STRING")
}

proof fn lemma_text_is_not_numeric(datatype: Seq<char>)
    requires
        is_text_type(datatype),
    ensures
        numeric_type(datatype) is None,
{
    reveal_strlit("BYTES");
    reveal_strlit("STRING");
    reveal_strlit("FP32");
    reveal_strlit("FP64");
    reveal_strlit("INT32");
    reveal_strlit("INT64");
    reveal_strlit("UINT32");
    reveal_strlit("UINT64");
    if datatype == "BYTES"@ {
        assert("BYTES"@[0] == 'B');
        assert("INT32"@[0] == 'I');
        assert("INT64"@[0] == 'I');
    } else {
        assert("STRING"@[0] == 'S');
        assert("UINT32"@[0] == 'U');
        assert("UINT64"@[0] == 'U');
    }
}

/// The tensor data that a JSON value holds for a datatype.
pub open spec fn tensor_data(value: crate::json::Json, datatype: Seq<char>) -> Result<
    Content,
    ParseFault,
> {
    if let crate::json::Json::Array(a) = value {
        if numeric_type(datatype) is Some {
            match crate::json::flat_numbers(a) {
                Ok(v) => Ok(Content::Floats(v)),
                Err(v) => Err(ParseFault::ExpectedNumber(v)),
            }
        } else if is_text_type(datatype) {
            match crate::json::flat_strings(a) {
                Ok(v) => Ok(Content::Strings(v)),
                Err(v) => Err(ParseFault::ExpectedString(v)),
            }
        } else {
            Err(ParseFault::UnsupportedDatatype(datatype))
        }
    } else {
        Err(ParseFault::NotArray)
    }
}

/// Turns the JSON value of a tensor's `data` field into tensor data. Nested arrays
/// are flattened, so `[[1, 2], [3, 4]]` and `[1, 2, 3, 4]` mean the same.
pub fn json_to_tensor_data(value: JsonValue, datatype: &str) -> (r: Result<TensorData, ParseError>)
    ensures
        match r {
            Ok(d) => tensor_data(value@, datatype@) == Ok::<Content, ParseFault>(d@),
            Err(e) => tensor_data(value@, datatype@) == Err::<Content, ParseFault>(e@),
        },
{
    match value {
        JsonValue::Array(a) => {
            proof {
                crate::json::lemma_array_view(a);
            }
            if parse_numeric_type(datatype).is_some() {
                match flatten_numbers(&a) {
                    Ok(v) => Ok(TensorData::Floats(v)),
                    Err(v) => Err(ParseError::ExpectedNumber(v)),
                }
            } else if names_text(datatype) {
                match flatten_texts(&a) {
                    Ok(v) => Ok(TensorData::Strings(v)),
                    Err(v) => Err(ParseError::ExpectedString(v)),
                }
            } else {
                Err(ParseError::UnsupportedDatatype(datatype.to_owned()))
            }
        },
        _ => Err(ParseError::NotArray),
    }
}

impl NumericType {
    /// The number of bytes of an element.
    pub open spec fn width(self) -> int {
        match self {
            NumericType::Fp32 | NumericType::Int32 | NumericType::Uint32 => 4,
            _ => 8,
        }
    }

    /// The binary32 number for the bytes of one element.
    pub open spec fn element(self, bytes: Seq<u8>) -> Fp32 {
        let bits = match self {
            NumericType::Fp32 => crate::text::little_endian(bytes) as int,
            NumericType::Fp64 => crate::float::fp32_of_fp64(
                Fp64 { bits: crate::text::little_endian(bytes) as u64 },
            ),
            NumericType::Int32 | NumericType::Int64 => crate::float::fp32_of_int(
                crate::text::little_endian_signed(bytes),
            ),
            NumericType::Uint32 | NumericType::Uint64 => crate::float::fp32_of_int(
                crate::text::little_endian(bytes) as int,
            ),
        };
        Fp32 { bits: bits as u32 }
    }
}

/// The `i`-th run of `width` items.
pub open spec fn chunk<T>(items: Seq<T>, width: int, i: int) -> Seq<T> {
    items.subrange(i * width, i * width + width)
}

/// Whether `f` turns a slice with these bytes into `out`.
pub open spec fn produces<T, F: Fn(&[u8]) -> T>(f: F, bytes: Seq<u8>, out: T) -> bool {
    exists|c: &[u8]| #[trigger] c@ == bytes && f.ensures((c,), out)
}

/// A whole run lies within the items.
pub proof fn lemma_chunk_bounds(len: int, width: int, i: int)
    requires
        width > 0,
        0 <= i < len / width,
    ensures
        0 <= i * width,
        i * width + width <= len,
{
    assert(0 <= i * width && i * width + width <= len) by (nonlinear_arith)
        requires
            width > 0,
            0 <= i < len / width,
    ;
}

/// Cuts `bytes` into elements of `width` bytes and decodes each with `f`.
fn chunked<T, F: Fn(&[u8]) -> T>(bytes: &[u8], width: usize, f: F) -> (r: Result<
    Vec<T>,
    ParseError,
>)
    requires
        width > 0,
        forall|c: &[u8]| c@.len() == width ==> #[trigger] f.requires((c,)),
    ensures
        match r {
            Ok(v) => {
                &&& bytes@.len() % (width as nat) == 0
                &&& v@.len() == bytes@.len() / (width as nat)
                &&& forall|i: int|
                    0 <= i < v@.len() ==> produces(
                        f,
                        chunk(bytes@, width as int, i),
                        #[trigger] v@[i],
                    )
            },
            Err(e) => {
                &&& bytes@.len() % (width as nat) != 0
                &&& e@ == (ParseFault::RaggedBytes { len: bytes@.len() as usize, width })
            },
        },
{
    let total: usize = bytes.len();
    if total % width != 0 {
        return Err(ParseError::RaggedBytes { len: total, width });
    }
    let count: usize = total / width;
    let mut out: Vec<T> = Vec::new();
    let mut i: usize = 0;
    while i < count
        invariant
            width > 0,
            total == bytes@.len(),
            count == total as nat / (width as nat),
            i <= count,
            out@.len() == i,
            forall|c: &[u8]| c@.len() == width ==> #[trigger] f.requires((c,)),
            forall|j: int|
                0 <= j < i ==> produces(f, chunk(bytes@, width as int, j), #[trigger] out@[j]),
        decreases count - i,
    {
        proof {
            lemma_chunk_bounds(bytes@.len() as int, width as int, i as int);
        }
        let start: usize = i * width;
        let c = vstd::slice::slice_subrange(bytes, start, start + width);
        let v = f(c);
        assert(c@ == chunk(bytes@, width as int, i as int));
        assert(produces(f, chunk(bytes@, width as int, i as int), v));
        out.push(v);
        i = i + 1;
    }
    Ok(out)
}

/// The numbers that whole elements of a type stand for.
pub open spec fn raw_elements(bytes: Seq<u8>, t: NumericType) -> Seq<Fp32> {
    Seq::new(
        (bytes.len() as int / t.width()) as nat,
        |i: int| t.element(chunk(bytes, t.width(), i)),
    )
}

/// The numbers that raw bytes hold for a datatype.
pub open spec fn raw_floats(bytes: Seq<u8>, datatype: Seq<char>) -> Result<
    Seq<Fp32>,
    ParseFault,
> {
    match numeric_type(datatype) {
        None => Err(ParseFault::UndecodableDatatype(datatype)),
        Some(t) => if bytes.len() as int % t.width() != 0 {
            Err(ParseFault::RaggedBytes { len: bytes.len() as usize, width: t.width() as usize })
        } else {
            Ok(raw_elements(bytes, t))
        },
    }
}

fn element_fp32(c: &[u8]) -> (v: Fp32)
    requires
        c@.len() == 4,
    ensures
        v == NumericType::Fp32.element(c@),
{
    Fp32 { bits: read_u32(c) }
}

fn element_fp64(c: &[u8]) -> (v: Fp32)
    requires
        c@.len() == 8,
    ensures
        v == NumericType::Fp64.element(c@),
{
    Fp32::from_fp64(Fp64 { bits: read_u64(c) })
}

fn element_int32(c: &[u8]) -> (v: Fp32)
    requires
        c@.len() == 4,
    ensures
        v == NumericType::Int32.element(c@),
{
    Fp32::from_i64(read_i32(c) as i64)
}

fn element_int64(c: &[u8]) -> (v: Fp32)
    requires
        c@.len() == 8,
    ensures
        v == NumericType::Int64.element(c@),
{
    Fp32::from_i64(read_i64(c))
}

fn element_uint32(c: &[u8]) -> (v: Fp32)
    requires
        c@.len() == 4,
    ensures
        v == NumericType::Uint32.element(c@),
{
    Fp32::from_u64(read_u32(c) as u64)
}

fn element_uint64(c: &[u8]) -> (v: Fp32)
    requires
        c@.len() == 8,
    ensures
        v == NumericType::Uint64.element(c@),
{
    Fp32::from_u64(read_u64(c))
}

/// Decodes the little-endian bytes of a numeric datatype.
pub fn decode_raw_floats(bytes: &[u8], datatype: &str) -> (r: Result<Vec<Fp32>, ParseError>)
    ensures
        match r {
            Ok(v) => raw_floats(bytes@, datatype@) == Ok::<Seq<Fp32>, ParseFault>(v@),
            Err(e) => raw_floats(bytes@, datatype@) == Err::<Seq<Fp32>, ParseFault>(e@),
        },
{
    let t = match parse_numeric_type(datatype) {
        Some(t) => t,
        None => return Err(ParseError::UndecodableDatatype(datatype.to_owned())),
    };
    let ghost expected = raw_floats(bytes@, datatype@);
    let r = match t {
        NumericType::Fp32 => chunked(bytes, 4, element_fp32),
        NumericType::Fp64 => chunked(bytes, 8, element_fp64),
        NumericType::Int32 => chunked(bytes, 4, element_int32),
        NumericType::Int64 => chunked(bytes, 8, element_int64),
        NumericType::Uint32 => chunked(bytes, 4, element_uint32),
        NumericType::Uint64 => chunked(bytes, 8, element_uint64),
    };
    proof {
        if r is Ok {
            assert((r->Ok_0)@ =~= expected->Ok_0);
        }
    }
    r
}

/// The strings that raw bytes hold.
pub open spec fn raw_strings(bytes: Seq<u8>) -> Result<Seq<Seq<char>>, ParseFault> {
    let (found, end) = crate::frames::scan(bytes, 0);
    match end {
        FrameEnd::Clean => Ok(found),
        FrameEnd::ShortPrefix { .. } => Err(ParseFault::TrailingBytes),
        FrameEnd::ShortPayload { .. } => Err(ParseFault::StringOverrun),
        FrameEnd::BadText { fault } => Err(ParseFault::InvalidUtf8(fault)),
    }
}

/// Decodes strings that each follow their length, a little-endian number of four
/// bytes.
pub fn decode_raw_strings(bytes: &[u8]) -> (r: Result<Vec<String>, ParseError>)
    ensures
        match r {
            Ok(v) => raw_strings(bytes@) == Ok::<Seq<Seq<char>>, ParseFault>(
                crate::frames::texts(v@),
            ),
            Err(e) => raw_strings(bytes@) == Err::<Seq<Seq<char>>, ParseFault>(e@),
        },
{
    let (found, end) = scan_strings(bytes);
    match end {
        FrameEnd::Clean => Ok(found),
        FrameEnd::ShortPrefix { .. } => Err(ParseError::TrailingBytes),
        FrameEnd::ShortPayload { .. } => Err(ParseError::StringOverrun),
        FrameEnd::BadText { fault } => Err(ParseError::InvalidUtf8(fault)),
    }
}

/// Numbers in `width` bytes each, one behind the other.
pub open spec fn numbers_bytes(v: Seq<nat>, width: nat) -> Seq<u8> {
    Seq::new(
        v.len() * width,
        |k: int| crate::text::number_bytes(v[k / width as int], width)[k % width as int],
    )
}

proof fn lemma_numbers_chunk(v: Seq<nat>, width: nat, i: int)
    requires
        width > 0,
        0 <= i < v.len(),
        v[i] < vstd::arithmetic::power2::pow2(8 * width),
    ensures
        numbers_bytes(v, width).len() as int / width as int == v.len(),
        numbers_bytes(v, width).len() as int % width as int == 0,
        chunk(numbers_bytes(v, width), width as int, i) == crate::text::number_bytes(v[i], width),
{
    let w = width as int;
    let bytes = numbers_bytes(v, width);
    crate::text::law_number_reads_back(v[i], width);
    vstd::arithmetic::div_mod::lemma_div_multiples_vanish(v.len() as int, w);
    vstd::arithmetic::div_mod::lemma_mod_multiples_basic(v.len() as int, w);
    assert(v.len() * width == w * v.len()) by (nonlinear_arith)
        requires
            w == width as int,
    ;
    lemma_chunk_bounds(bytes.len() as int, w, i);
    let want = crate::text::number_bytes(v[i], width);
    assert forall|j: int| 0 <= j < w implies chunk(bytes, w, i)[j] == want[j] by {
        assert(i * w + j == w * i + j) by (nonlinear_arith);
        vstd::arithmetic::div_mod::lemma_fundamental_div_mod_converse(i * w + j, w, i, j);
    }
    assert(chunk(bytes, w, i) =~= want);
}

proof fn lemma_raw_elements(v: Seq<nat>, t: NumericType)
    requires
        forall|i: int|
            0 <= i < v.len() ==> #[trigger] v[i] < vstd::arithmetic::power2::pow2(
                8 * t.width() as nat,
            ),
    ensures
        numbers_bytes(v, t.width() as nat).len() as int % t.width() == 0,
        raw_elements(numbers_bytes(v, t.width() as nat), t) == Seq::new(
            v.len(),
            |i: int| t.element(crate::text::number_bytes(v[i], t.width() as nat)),
        ),
{
    let w = t.width() as nat;
    let bytes = numbers_bytes(v, w);
    vstd::arithmetic::div_mod::lemma_div_multiples_vanish(v.len() as int, w as int);
    vstd::arithmetic::div_mod::lemma_mod_multiples_basic(v.len() as int, w as int);
    assert(v.len() * w == w as int * v.len()) by (nonlinear_arith);
    assert forall|i: int| 0 <= i < v.len() implies #[trigger] raw_elements(bytes, t)[i]
        == t.element(crate::text::number_bytes(v[i], w)) by {
        lemma_numbers_chunk(v, w, i);
    }
    assert(raw_elements(bytes, t) =~= Seq::new(
        v.len(),
        |i: int| t.element(crate::text::number_bytes(v[i], w)),
    ));
}

/// Binary32 numbers that are written as raw bytes are read back as they were, whatever
/// their bits.
pub proof fn law_raw_fp32_reads_back(v: Seq<Fp32>)
    ensures
        raw_floats(numbers_bytes(v.map_values(|x: Fp32| x.bits as nat), 4), "FP32"@) == Ok::<
            Seq<Fp32>,
            ParseFault,
        >(v),
{
    let n = v.map_values(|x: Fp32| x.bits as nat);
    vstd::arithmetic::power2::lemma2_to64();
    lemma_raw_elements(n, NumericType::Fp32);
    assert forall|i: int| 0 <= i < v.len() implies #[trigger] raw_elements(
        numbers_bytes(n, 4),
        NumericType::Fp32,
    )[i] == v[i] by {
        crate::text::law_number_reads_back(n[i], 4);
    }
    assert(raw_elements(numbers_bytes(n, 4), NumericType::Fp32) =~= v);
}

/// Binary64 numbers that are written as raw bytes are read back rounded to binary32.
pub proof fn law_raw_fp64_reads_back(v: Seq<Fp64>)
    ensures
        raw_floats(numbers_bytes(v.map_values(|x: Fp64| x.bits as nat), 8), "FP64"@) == Ok::<
            Seq<Fp32>,
            ParseFault,
        >(v.map_values(|x: Fp64| Fp32 { bits: crate::float::fp32_of_fp64(x) as u32 })),
{
    let n = v.map_values(|x: Fp64| x.bits as nat);
    let want = v.map_values(|x: Fp64| Fp32 { bits: crate::float::fp32_of_fp64(x) as u32 });
    vstd::arithmetic::power2::lemma2_to64_rest();
    reveal_strlit("FP32");
    reveal_strlit("FP64");
    assert("FP32"@[2] != "FP64"@[2]);
    lemma_raw_elements(n, NumericType::Fp64);
    assert forall|i: int| 0 <= i < v.len() implies #[trigger] raw_elements(
        numbers_bytes(n, 8),
        NumericType::Fp64,
    )[i] == want[i] by {
        crate::text::law_number_reads_back(n[i], 8);
    }
    assert(raw_elements(numbers_bytes(n, 8), NumericType::Fp64) =~= want);
}

/// Whether a number can be an element of an integer type.
pub open spec fn integer_fits(t: NumericType, n: int) -> bool {
    match t {
        NumericType::Int32 => i32::MIN <= n <= i32::MAX,
        NumericType::Int64 => i64::MIN <= n <= i64::MAX,
        NumericType::Uint32 => 0 <= n <= u32::MAX,
        NumericType::Uint64 => 0 <= n <= u64::MAX,
        _ => false,
    }
}

/// Integers that are written as raw bytes, negative ones in two's complement, are read back
/// rounded to binary32.
pub proof fn law_raw_integers_read_back(v: Seq<int>, datatype: Seq<char>, t: NumericType)
    requires
        numeric_type(datatype) == Some(t),
        forall|i: int| 0 <= i < v.len() ==> integer_fits(t, #[trigger] v[i]),
    ensures
        raw_floats(
            numbers_bytes(
                v.map_values(
                    |n: int|
                        if n < 0 {
                            (n + vstd::arithmetic::power2::pow2(8 * t.width() as nat)) as nat
                        } else {
                            n as nat
                        },
                ),
                t.width() as nat,
            ),
            datatype,
        ) == Ok::<Seq<Fp32>, ParseFault>(
            v.map_values(|n: int| Fp32 { bits: crate::float::fp32_of_int(n) as u32 }),
        ),
{
    let w = t.width() as nat;
    let n = v.map_values(
        |n: int|
            if n < 0 {
                (n + vstd::arithmetic::power2::pow2(8 * t.width() as nat)) as nat
            } else {
                n as nat
            },
    );
    let want = v.map_values(|n: int| Fp32 { bits: crate::float::fp32_of_int(n) as u32 });
    vstd::arithmetic::power2::lemma2_to64();
    vstd::arithmetic::power2::lemma2_to64_rest();
    assert forall|i: int| 0 <= i < v.len() implies #[trigger] n[i] < vstd::arithmetic::power2::pow2(
        8 * w,
    ) by {
        assert(integer_fits(t, v[i]));
    }
    if v.len() > 0 {
        assert(integer_fits(t, v[0]));
        lemma_raw_elements(n, t);
        assert forall|i: int| 0 <= i < v.len() implies #[trigger] raw_elements(
            numbers_bytes(n, w),
            t,
        )[i] == want[i] by {
            assert(integer_fits(t, v[i]));
            crate::text::law_number_reads_back(n[i], w);
        }
    } else {
        lemma_raw_elements(n, t);
    }
    assert(raw_elements(numbers_bytes(n, w), t) =~= want);
}

/// Strings that are written in the raw encoding are read back as they were.
pub proof fn law_raw_strings_read_back(ss: Seq<Seq<char>>)
    requires
        crate::frames::frameable(ss),
        crate::frames::framed_all(ss).len() <= usize::MAX,
    ensures
        raw_strings(crate::frames::framed_all(ss)) == Ok::<Seq<Seq<char>>, ParseFault>(ss),
{
    crate::frames::law_framed_reads_back(ss);
}

/// Raw bytes that are read as strings are the encoding of these strings, to the last
/// byte.
pub proof fn law_raw_strings_are_framed(bytes: Seq<u8>)
    requires
        raw_strings(bytes) is Ok,
    ensures
        crate::frames::framed_all(raw_strings(bytes)->Ok_0) == bytes,
        crate::frames::frameable(raw_strings(bytes)->Ok_0),
{
    crate::frames::law_clean_scan_is_framed(bytes);
}

/// Flat data as rows of `cols` items. What does not fill a row is left out.
pub open spec fn rows<T>(flat: Seq<T>, cols: int) -> Seq<Seq<T>> {
    Seq::new((flat.len() as int / cols) as nat, |i: int| chunk(flat, cols, i))
}

/// Cuts flat data into rows of `cols` items.
pub fn split_rows<T>(flat: Vec<T>, cols: usize) -> (r: Vec<Vec<T>>)
    requires
        cols > 0,
        flat@.len() % (cols as nat) == 0,
    ensures
        crate::inference::grid(r@) == rows(flat@, cols as int),
{
    let ghost all = flat@;
    let mut out: Vec<Vec<T>> = Vec::new();
    let mut row: Vec<T> = Vec::new();
    assert(out@.len() * cols == 0) by (nonlinear_arith)
        requires
            out@.len() == 0,
    ;
    for x in it: flat.into_iter()
        invariant
            it.seq() == all,
            cols > 0,
            row@.len() < cols,
            out@.len() * cols + row@.len() == it.index(),
            row@ =~= all.subrange(out@.len() * cols, it.index()),
            forall|j: int|
                0 <= j < out@.len() ==> (#[trigger] out@[j])@ == chunk(all, cols as int, j),
    {
        row.push(x);
        if row.len() == cols {
            assert((out@.len() + 1) * cols == out@.len() * cols + cols) by (nonlinear_arith);
            assert(row@ =~= chunk(all, cols as int, out@.len() as int));
            out.push(row);
            row = Vec::new();
        }
    }
    proof {
        vstd::arithmetic::div_mod::lemma_fundamental_div_mod_converse(
            all.len() as int,
            cols as int,
            out@.len() as int,
            row@.len() as int,
        );
        assert(crate::inference::grid(out@) =~= rows(all, cols as int));
    }
    out
}

/// The number of columns that a shape asks for.
pub open spec fn column_count(shape: Seq<i64>) -> i64 {
    if shape.len() > 1 {
        shape[1]
    } else {
        1
    }
}

/// Flat data in the rows that a shape asks for. Only the number of columns counts.
pub open spec fn reshaped<T>(flat: Seq<T>, shape: Seq<i64>) -> Result<Seq<Seq<T>>, ParseFault> {
    let cols = column_count(shape);
    if cols <= 0 {
        Err(ParseFault::NonPositiveColumns(cols))
    } else if flat.len() as int % cols as int != 0 {
        Err(ParseFault::IndivisibleLength { len: flat.len() as usize, cols })
    } else {
        Ok(rows(flat, cols as int))
    }
}

/// Cuts flat data into rows, with `shape[1]` as the number of columns, or one column
/// where the shape has no second dimension. The data has to fill its rows.
pub fn reshape<T: Clone>(flat: Vec<T>, shape: &[i64]) -> (r: Result<Vec<Vec<T>>, ParseError>)
    ensures
        match r {
            Ok(v) => reshaped(flat@, shape@) == Ok::<Seq<Seq<T>>, ParseFault>(
                crate::inference::grid(v@),
            ),
            Err(e) => reshaped(flat@, shape@) == Err::<Seq<Seq<T>>, ParseFault>(e@),
        },
{
    let cols: i64 = if shape.len() > 1 {
        shape[1]
    } else {
        1
    };
    if cols <= 0 {
        return Err(ParseError::NonPositiveColumns(cols));
    }
    let len: usize = flat.len();
    if len as u64 % cols as u64 != 0 {
        return Err(ParseError::IndivisibleLength { len, cols });
    }
    if len == 0 {
        let none: Vec<Vec<T>> = Vec::new();
        proof {
            vstd::arithmetic::div_mod::lemma_basic_div(0, cols as int);
            assert(crate::inference::grid(none@) =~= rows(flat@, cols as int));
        }
        return Ok(none);
    }
    proof {
        if cols > len {
            vstd::arithmetic::div_mod::lemma_small_mod(len as nat, cols as nat);
        }
    }
    Ok(split_rows(flat, cols as usize))
}

/// Reshaping loses, adds and moves nothing: the rows, one behind the other, are the
/// data, and each has as many items as the shape asks for.
pub proof fn law_reshape_keeps_data<T>(flat: Seq<T>, shape: Seq<i64>)
    requires
        reshaped(flat, shape) is Ok,
    ensures
        reshaped(flat, shape)->Ok_0.flatten() == flat,
        forall|i: int|
            0 <= i < reshaped(flat, shape)->Ok_0.len() ==> (#[trigger] reshaped(
                flat,
                shape,
            )->Ok_0[i]).len() == column_count(shape),
{
    let cols = column_count(shape) as int;
    vstd::arithmetic::div_mod::lemma_fundamental_div_mod(flat.len() as int, cols);
    lemma_rows_flatten(flat, cols);
    assert forall|i: int| 0 <= i < rows(flat, cols).len() implies (#[trigger] rows(
        flat,
        cols,
    )[i]).len() == cols by {
        lemma_chunk_bounds(flat.len() as int, cols, i);
    }
}

/// Rows that account for all items hold them in order.
pub proof fn lemma_rows_flatten<T>(flat: Seq<T>, cols: int)
    requires
        cols > 0,
        flat.len() as int % cols == 0,
    ensures
        rows(flat, cols).flatten() == flat,
    decreases flat.len(),
{
    let n = flat.len() as int / cols;
    vstd::arithmetic::div_mod::lemma_fundamental_div_mod(flat.len() as int, cols);
    if flat.len() == 0 {
        vstd::arithmetic::div_mod::lemma_basic_div(0, cols);
        assert(rows(flat, cols) =~= seq![]);
        assert(rows(flat, cols).flatten() =~= flat);
    } else {
        assert(n >= 1) by (nonlinear_arith)
            requires
                flat.len() as int == cols * n + 0,
                flat.len() > 0,
                cols > 0,
        ;
        lemma_chunk_bounds(flat.len() as int, cols, 0);
        let rest = flat.skip(cols);
        assert(cols * n - cols == (n - 1) * cols) by (nonlinear_arith);
        vstd::arithmetic::div_mod::lemma_fundamental_div_mod_converse(
            rest.len() as int,
            cols,
            n - 1,
            0,
        );
        lemma_rows_flatten(rest, cols);
        assert forall|i: int| 0 <= i < n - 1 implies rows(flat, cols).drop_first()[i] == rows(
            rest,
            cols,
        )[i] by {
            lemma_chunk_bounds(flat.len() as int, cols, i + 1);
            assert((i + 1) * cols == i * cols + cols) by (nonlinear_arith);
            assert(chunk(flat, cols, i + 1) =~= chunk(rest, cols, i));
        }
        assert(rows(flat, cols).drop_first() =~= rows(rest, cols));
        assert(rows(flat, cols).first() =~= flat.take(cols));
        assert(flat.take(cols) + rest =~= flat);
    }
}

/// Whether a tensor's datatype is numeric.
pub open spec fn is_numeric(t: Tensor) -> bool {
    numeric_type(t.datatype) is Some
}

/// Whether a tensor's datatype is text.
pub open spec fn is_text(t: Tensor) -> bool {
    is_text_type(t.datatype)
}

/// The position of the first tensor that is wanted, or the number of tensors.
pub open spec fn first_index(tensors: Seq<Tensor>, wanted: spec_fn(Tensor) -> bool) -> int
    decreases tensors.len(),
{
    if tensors.len() == 0 || wanted(tensors[0]) {
        0
    } else {
        1 + first_index(tensors.drop_first(), wanted)
    }
}

/// The rows of a numeric tensor.
pub open spec fn float_rows(t: Tensor) -> Result<Seq<Seq<Fp32>>, ParseFault> {
    match t.data {
        Content::Floats(v) => reshaped(v, t.shape),
        Content::RawBytes(b) => match raw_floats(b, t.datatype) {
            Ok(v) => reshaped(v, t.shape),
            Err(e) => Err(e),
        },
        Content::Strings(_) => Err(ParseFault::NumericDataExpected(t.name)),
    }
}

/// The rows of a text tensor.
pub open spec fn cat_rows(t: Tensor) -> Result<Seq<Seq<Seq<char>>>, ParseFault> {
    match t.data {
        Content::Strings(v) => reshaped(v, t.shape),
        Content::RawBytes(b) => match raw_strings(b) {
            Ok(v) => reshaped(v, t.shape),
            Err(e) => Err(e),
        },
        Content::Floats(_) => Err(ParseFault::StringDataExpected(t.name)),
    }
}

/// The rows of the first numeric tensor and of the first text tensor. Where one of
/// them is faulty, so is the request; where both are, the fault of the one that comes
/// first in the request counts.
pub open spec fn parsed(tensors: Seq<Tensor>) -> Result<
    (Seq<Seq<Fp32>>, Seq<Seq<Seq<char>>>),
    ParseFault,
> {
    let f = first_index(tensors, |t: Tensor| is_numeric(t));
    let c = first_index(tensors, |t: Tensor| is_text(t));
    let floats = if f < tensors.len() {
        float_rows(tensors[f])
    } else {
        Ok(seq![])
    };
    let cats = if c < tensors.len() {
        cat_rows(tensors[c])
    } else {
        Ok(seq![])
    };
    match (floats, cats) {
        (Ok(a), Ok(b)) => Ok((a, b)),
        (Err(e), Ok(_)) => Err(e),
        (Ok(_), Err(e)) => Err(e),
        (Err(e), Err(g)) => if f < c {
            Err(e)
        } else {
            Err(g)
        },
    }
}

proof fn lemma_first_index(tensors: Seq<Tensor>, wanted: spec_fn(Tensor) -> bool)
    ensures
        0 <= first_index(tensors, wanted) <= tensors.len(),
        first_index(tensors, wanted) < tensors.len() ==> wanted(
            tensors[first_index(tensors, wanted)],
        ),
        forall|j: int| 0 <= j < first_index(tensors, wanted) ==> !wanted(#[trigger] tensors[j]),
    decreases tensors.len(),
{
    if tensors.len() > 0 && !wanted(tensors[0]) {
        let rest = tensors.drop_first();
        lemma_first_index(rest, wanted);
        assert forall|j: int| 0 <= j < first_index(tensors, wanted) implies !wanted(
            #[trigger] tensors[j],
        ) by {
            if j > 0 {
                assert(rest[j - 1] == tensors[j]);
            }
        }
    }
}

/// Reshaping strings and reshaping their characters come to the same.
pub proof fn lemma_reshaped_texts(flat: Seq<String>, shape: Seq<i64>, v: Seq<Vec<String>>)
    ensures
        reshaped(flat, shape) == Ok::<Seq<Seq<String>>, ParseFault>(crate::inference::grid(v))
            ==> reshaped(crate::frames::texts(flat), shape) == Ok::<
            Seq<Seq<Seq<char>>>,
            ParseFault,
        >(crate::inference::text_grid(v)),
        reshaped(flat, shape) is Err ==> reshaped(crate::frames::texts(flat), shape) == Err::<
            Seq<Seq<Seq<char>>>,
            ParseFault,
        >(reshaped(flat, shape)->Err_0),
{
    if reshaped(flat, shape) == Ok::<Seq<Seq<String>>, ParseFault>(crate::inference::grid(v)) {
        let cols = column_count(shape) as int;
        let chars = crate::frames::texts(flat);
        assert(crate::inference::grid(v) == rows(flat, cols));
        assert(v.len() == rows(flat, cols).len());
        assert forall|i: int| 0 <= i < rows(chars, cols).len() implies rows(chars, cols)[i]
            == crate::inference::text_grid(v)[i] by {
            lemma_chunk_bounds(flat.len() as int, cols, i);
            assert(v[i]@ == crate::inference::grid(v)[i]);
            assert(v[i]@ == chunk(flat, cols, i));
            assert(chunk(chars, cols, i) =~= crate::frames::texts(chunk(flat, cols, i)));
        }
        assert(rows(chars, cols) =~= crate::inference::text_grid(v));
    }
}

/// The rows of one numeric tensor.
fn read_float_rows(t: RawTensor) -> (r: Result<Vec<Vec<Fp32>>, ParseError>)
    ensures
        match r {
            Ok(v) => float_rows(t@) == Ok::<Seq<Seq<Fp32>>, ParseFault>(
                crate::inference::grid(v@),
            ),
            Err(e) => float_rows(t@) == Err::<Seq<Seq<Fp32>>, ParseFault>(e@),
        },
{
    let flat = match t.data {
        TensorData::Floats(v) => v,
        TensorData::RawBytes(b) => match decode_raw_floats(&b, &t.datatype) {
            Ok(v) => v,
            Err(e) => return Err(e),
        },
        TensorData::Strings(_) => return Err(ParseError::NumericDataExpected(t.name)),
    };
    reshape(flat, &t.shape)
}

/// The rows of one text tensor.
fn read_cat_rows(t: RawTensor) -> (r: Result<Vec<Vec<String>>, ParseError>)
    ensures
        match r {
            Ok(v) => cat_rows(t@) == Ok::<Seq<Seq<Seq<char>>>, ParseFault>(
                crate::inference::text_grid(v@),
            ),
            Err(e) => cat_rows(t@) == Err::<Seq<Seq<Seq<char>>>, ParseFault>(e@),
        },
{
    let flat = match t.data {
        TensorData::Strings(v) => v,
        TensorData::RawBytes(b) => match decode_raw_strings(&b) {
            Ok(v) => v,
            Err(e) => return Err(e),
        },
        TensorData::Floats(_) => return Err(ParseError::StringDataExpected(t.name)),
    };
    let ghost items = flat@;
    let r = reshape(flat, &t.shape);
    proof {
        if r is Ok {
            lemma_reshaped_texts(items, t.shape@, (r->Ok_0)@);
        } else {
            lemma_reshaped_texts(items, t.shape@, Seq::empty());
        }
    }
    r
}

/// Turns the tensors of a request into rows of features. The first numeric tensor
/// holds the numeric features, the first text tensor the categorical ones; other
/// tensors are ignored.
pub fn parse_inputs(tensors: Vec<RawTensor>) -> (r: Result<InferInputs, ParseError>)
    ensures
        match r {
            Ok(v) => parsed(tensors_of(tensors@)) == Ok::<
                (Seq<Seq<Fp32>>, Seq<Seq<Seq<char>>>),
                ParseFault,
            >((v.floats(), v.cats())),
            Err(e) => parsed(tensors_of(tensors@)) == Err::<
                (Seq<Seq<Fp32>>, Seq<Seq<Seq<char>>>),
                ParseFault,
            >(e@),
        },
{
    let ghost given = tensors@;
    let ghost all = tensors_of(given);
    let ghost f = first_index(all, |t: Tensor| is_numeric(t));
    let ghost c = first_index(all, |t: Tensor| is_text(t));
    let mut float_features: Vec<Vec<Fp32>> = Vec::new();
    let mut cat_features: Vec<Vec<String>> = Vec::new();
    let mut got_floats: bool = false;
    let mut got_cats: bool = false;
    proof {
        lemma_first_index(all, |t: Tensor| is_numeric(t));
        lemma_first_index(all, |t: Tensor| is_text(t));
        assert(crate::inference::grid(float_features@) =~= seq![]);
        assert(crate::inference::text_grid(cat_features@) =~= seq![]);
    }
    for t in it: tensors.into_iter()
        invariant
            it.seq() == given,
            all == tensors_of(given),
            f == first_index(all, |t: Tensor| is_numeric(t)),
            c == first_index(all, |t: Tensor| is_text(t)),
            0 <= f <= all.len(),
            0 <= c <= all.len(),
            f < all.len() ==> is_numeric(all[f]),
            c < all.len() ==> is_text(all[c]),
            forall|j: int| 0 <= j < f ==> !is_numeric(#[trigger] all[j]),
            forall|j: int| 0 <= j < c ==> !is_text(#[trigger] all[j]),
            got_floats == (f < it.index()),
            got_cats == (c < it.index()),
            got_floats ==> float_rows(all[f]) == Ok::<Seq<Seq<Fp32>>, ParseFault>(
                crate::inference::grid(float_features@),
            ),
            !got_floats ==> crate::inference::grid(float_features@) == Seq::<Seq<Fp32>>::empty(),
            got_cats ==> cat_rows(all[c]) == Ok::<Seq<Seq<Seq<char>>>, ParseFault>(
                crate::inference::text_grid(cat_features@),
            ),
            !got_cats ==> crate::inference::text_grid(cat_features@) == Seq::<
                Seq<Seq<char>>,
            >::empty(),
    {
        let ghost i = it.index();
        assert(t@ == all[i]);
        let numeric: bool = parse_numeric_type(&t.datatype).is_some();
        let textual: bool = names_text(&t.datatype);
        proof {
            if textual {
                lemma_text_is_not_numeric(t.datatype@);
            }
        }
        if numeric {
            if !got_floats {
                match read_float_rows(t) {
                    Ok(v) => {
                        float_features = v;
                        got_floats = true;
                    },
                    Err(e) => {
                        return Err(e);
                    },
                }
            }
        } else if textual {
            if !got_cats {
                match read_cat_rows(t) {
                    Ok(v) => {
                        cat_features = v;
                        got_cats = true;
                    },
                    Err(e) => {
                        return Err(e);
                    },
                }
            }
        }
    }
    Ok(InferInputs { float_features, cat_features })
}

proof fn lemma_first_index_stays(
    tensors: Seq<Tensor>,
    more: Seq<Tensor>,
    wanted: spec_fn(Tensor) -> bool,
)
    requires
        first_index(tensors, wanted) < tensors.len(),
    ensures
        first_index(tensors + more, wanted) == first_index(tensors, wanted),
    decreases tensors.len(),
{
    assert((tensors + more)[0] == tensors[0]);
    if !wanted(tensors[0]) {
        assert((tensors + more).drop_first() =~= tensors.drop_first() + more);
        lemma_first_index_stays(tensors.drop_first(), more, wanted);
    }
}

proof fn lemma_first_index_absent(
    tensors: Seq<Tensor>,
    more: Seq<Tensor>,
    wanted: spec_fn(Tensor) -> bool,
)
    requires
        first_index(tensors, wanted) == tensors.len(),
        forall|j: int| 0 <= j < more.len() ==> !wanted(#[trigger] more[j]),
    ensures
        first_index(tensors + more, wanted) == (tensors + more).len(),
{
    let all = tensors + more;
    lemma_first_index(tensors, wanted);
    lemma_first_index(all, wanted);
    let k = first_index(all, wanted);
    if k < all.len() {
        if k < tensors.len() {
            assert(all[k] == tensors[k]);
        } else {
            assert(all[k] == more[k - tensors.len()]);
        }
    }
}

/// Whether some tensor is wanted.
pub open spec fn has_tensor(tensors: Seq<Tensor>, wanted: spec_fn(Tensor) -> bool) -> bool {
    exists|j: int| 0 <= j < tensors.len() && wanted(#[trigger] tensors[j])
}

proof fn lemma_first_index_present(
    tensors: Seq<Tensor>,
    more: Seq<Tensor>,
    wanted: spec_fn(Tensor) -> bool,
)
    requires
        has_tensor(more, wanted) ==> has_tensor(tensors, wanted),
    ensures
        first_index(tensors, wanted) < tensors.len() ==> first_index(tensors + more, wanted)
            == first_index(tensors, wanted),
        first_index(tensors, wanted) == tensors.len() ==> first_index(tensors + more, wanted)
            == (tensors + more).len(),
        0 <= first_index(tensors, wanted) <= tensors.len(),
{
    lemma_first_index(tensors, wanted);
    if first_index(tensors, wanted) < tensors.len() {
        lemma_first_index_stays(tensors, more, wanted);
    } else {
        assert(!has_tensor(tensors, wanted));
        assert forall|j: int| 0 <= j < more.len() implies !wanted(#[trigger] more[j]) by {
            if wanted(more[j]) {
                assert(has_tensor(more, wanted));
            }
        }
        lemma_first_index_absent(tensors, more, wanted);
    }
}

/// Only the first numeric tensor and the first text tensor count: tensors of a kind that is
/// there already are not looked at.
pub proof fn law_later_tensors_do_not_count(tensors: Seq<Tensor>, more: Seq<Tensor>)
    requires
        has_tensor(more, |t: Tensor| is_numeric(t)) ==> has_tensor(
            tensors,
            |t: Tensor| is_numeric(t),
        ),
        has_tensor(more, |t: Tensor| is_text(t)) ==> has_tensor(tensors, |t: Tensor| is_text(t)),
    ensures
        parsed(tensors + more) == parsed(tensors),
{
    lemma_first_index_present(tensors, more, |t: Tensor| is_numeric(t));
    lemma_first_index_present(tensors, more, |t: Tensor| is_text(t));
}

proof fn lemma_first_index_skips(
    tensors: Seq<Tensor>,
    i: int,
    wanted: spec_fn(Tensor) -> bool,
)
    requires
        0 <= i < tensors.len(),
        !wanted(tensors[i]),
    ensures
        first_index(tensors.remove(i), wanted) == if first_index(tensors, wanted) < i {
            first_index(tensors, wanted)
        } else {
            first_index(tensors, wanted) - 1
        },
    decreases tensors.len(),
{
    if i == 0 {
        assert(tensors.remove(0) =~= tensors.drop_first());
        lemma_first_index(tensors.drop_first(), wanted);
    } else {
        assert(tensors.remove(i)[0] == tensors[0]);
        if !wanted(tensors[0]) {
            assert(tensors.remove(i).drop_first() =~= tensors.drop_first().remove(i - 1));
            lemma_first_index_skips(tensors.drop_first(), i - 1, wanted);
        }
    }
}

/// A tensor of an unknown datatype counts for nothing: without it the request is the same.
pub proof fn law_unknown_tensors_do_not_count(tensors: Seq<Tensor>, i: int)
    requires
        0 <= i < tensors.len(),
        !is_numeric(tensors[i]),
        !is_text(tensors[i]),
    ensures
        parsed(tensors.remove(i)) == parsed(tensors),
{
    let numeric = |t: Tensor| is_numeric(t);
    let text = |t: Tensor| is_text(t);
    lemma_first_index(tensors, numeric);
    lemma_first_index(tensors, text);
    lemma_first_index_skips(tensors, i, numeric);
    lemma_first_index_skips(tensors, i, text);
}

/// A tensor is what its fields say, and its data is what its vector holds.
pub proof fn law_tensor_is_its_fields(t: RawTensor)
    ensures
        t@.name == t.name@,
        t@.datatype == t.datatype@,
        t@.shape == t.shape@,
        t.data matches TensorData::Floats(v) ==> t@.data == Content::Floats(v@),
        t.data matches TensorData::RawBytes(v) ==> t@.data == Content::RawBytes(v@),
        t.data matches TensorData::Strings(v) ==> {
            &&& t@.data matches Content::Strings(w)
            &&& w.len() == v@.len()
            &&& forall|i: int| 0 <= i < w.len() ==> (#[trigger] w[i]) == v@[i]@
        },
{
}

/// Six datatypes are numeric and two are text; none is both, and no other is either.
pub proof fn law_datatypes(datatype: Seq<char>)
    ensures
        numeric_type(datatype) == Some(NumericType::Fp32) <==> datatype == "FP32"@,
        numeric_type(datatype) == Some(NumericType::Fp64) <==> datatype == "FP64"@,
        numeric_type(datatype) == Some(NumericType::Int32) <==> datatype == "INT32"@,
        numeric_type(datatype) == Some(NumericType::Int64) <==> datatype == "INT64"@,
        numeric_type(datatype) == Some(NumericType::Uint32) <==> datatype == "UINT32"@,
        numeric_type(datatype) == Some(NumericType::Uint64) <==> datatype == "UINT64"@,
        is_text_type(datatype) <==> datatype == "BYTES"@ || datatype == "STRING"@,
        !(is_text_type(datatype) && numeric_type(datatype) is Some),
{
    reveal_strlit("FP32");
    reveal_strlit("FP64");
    reveal_strlit("INT32");
    reveal_strlit("INT64");
    reveal_strlit("UINT32");
    reveal_strlit("UINT64");
    assert("FP32"@[2] != "FP64"@[2]);
    assert("INT32"@[3] != "INT64"@[3]);
    assert("UINT32"@[4] != "UINT64"@[4]);
    if is_text_type(datatype) {
        lemma_text_is_not_numeric(datatype);
    }
}

/// Raw bytes are numbers where they are a whole number of elements, of four bytes for the
/// datatypes that end in 32 and of eight for those that end in 64. Each element is read for
/// itself, in order.
pub proof fn law_raw_numbers_are_read_one_by_one(bytes: Seq<u8>, datatype: Seq<char>)
    requires
        bytes.len() <= usize::MAX,
    ensures
        ({
            let w = if datatype == "FP32"@ || datatype == "INT32"@ || datatype == "UINT32"@ {
                4
            } else {
                8int
            };
            &&& numeric_type(datatype) is None ==> raw_floats(bytes, datatype) == Err::<
                Seq<Fp32>,
                ParseFault,
            >(ParseFault::UndecodableDatatype(datatype))
            &&& numeric_type(datatype) is Some && bytes.len() as int % w != 0 ==> raw_floats(
                bytes,
                datatype,
            ) == Err::<Seq<Fp32>, ParseFault>(
                ParseFault::RaggedBytes { len: bytes.len() as usize, width: w as usize },
            )
            &&& numeric_type(datatype) is Some && bytes.len() as int % w == 0 ==> {
                &&& raw_floats(bytes, datatype) matches Ok(v)
                &&& v.len() * w == bytes.len()
                &&& forall|i: int|
                    0 <= i < v.len() ==> raw_floats(
                        bytes.subrange(w * i, w * i + w),
                        datatype,
                    ) == Ok::<Seq<Fp32>, ParseFault>(seq![#[trigger] v[i]])
            }
        }),
{
    law_datatypes(datatype);
    if let Some(t) = numeric_type(datatype) {
        let w = t.width();
        if bytes.len() as int % w == 0 {
            let v = raw_floats(bytes, datatype)->Ok_0;
            assert forall|i: int| 0 <= i < v.len() implies raw_floats(
                bytes.subrange(w * i, w * i + w),
                datatype,
            ) == Ok::<Seq<Fp32>, ParseFault>(seq![#[trigger] v[i]]) by {
                let one = bytes.subrange(w * i, w * i + w);
                lemma_chunk_bounds(bytes.len() as int, w, i);
                assert(i * w == w * i) by (nonlinear_arith);
                assert(chunk(one, w, 0) =~= one);
                assert(raw_elements(one, t) =~= seq![v[i]]);
            }
        }
    }
}

/// Rows in numbers: the data is cut exactly where its length is a multiple of a positive
/// number of columns, which is the second dimension or one; then item `j` of row `i` is item
/// `i * cols + j` of the data.
pub proof fn law_reshape_in_numbers<T>(flat: Seq<T>, shape: Seq<i64>, cols: i64)
    requires
        cols == if shape.len() >= 2 {
            shape[1]
        } else {
            1
        },
        flat.len() <= usize::MAX,
    ensures
        cols <= 0 ==> reshaped(flat, shape) == Err::<Seq<Seq<T>>, ParseFault>(
            ParseFault::NonPositiveColumns(cols),
        ),
        cols > 0 && flat.len() as int % cols as int != 0 ==> reshaped(flat, shape) == Err::<
            Seq<Seq<T>>,
            ParseFault,
        >(ParseFault::IndivisibleLength { len: flat.len() as usize, cols }),
        cols > 0 && flat.len() as int % cols as int == 0 ==> {
            &&& reshaped(flat, shape) matches Ok(v)
            &&& v.len() * cols == flat.len()
            &&& forall|i: int| 0 <= i < v.len() ==> (#[trigger] v[i]).len() == cols
            &&& forall|i: int, j: int|
                0 <= i < v.len() && 0 <= j < cols ==> (#[trigger] v[i][j]) == flat[i * cols + j]
        },
{
    if cols > 0 && flat.len() as int % cols as int == 0 {
        let n = flat.len() as int / cols as int;
        vstd::arithmetic::div_mod::lemma_fundamental_div_mod(flat.len() as int, cols as int);
        assert(n * cols == cols * n) by (nonlinear_arith);
        let v = rows(flat, cols as int);
        assert forall|i: int| 0 <= i < v.len() implies (#[trigger] v[i]).len() == cols by {
            lemma_chunk_bounds(flat.len() as int, cols as int, i);
        }
        assert forall|i: int, j: int| 0 <= i < v.len() && 0 <= j < cols implies (
        #[trigger] v[i][j]) == flat[i * cols + j] by {
            lemma_chunk_bounds(flat.len() as int, cols as int, i);
        }
    }
}

proof fn lemma_one_tensor(t: Tensor)
    ensures
        is_numeric(t) ==> match float_rows(t) {
            Ok(v) => parsed(seq![t]) matches Ok(r) && r.0 == v && r.1 == Seq::<
                Seq<Seq<char>>,
            >::empty(),
            Err(e) => parsed(seq![t]) matches Err(g) && g == e,
        },
        is_text(t) ==> match cat_rows(t) {
            Ok(v) => parsed(seq![t]) matches Ok(r) && r.0 == Seq::<Seq<Fp32>>::empty() && r.1
                == v,
            Err(e) => parsed(seq![t]) matches Err(g) && g == e,
        },
        !is_numeric(t) && !is_text(t) ==> (parsed(seq![t]) matches Ok(r)
            && r.0.len() == 0 && r.1.len() == 0),
{
    if is_text(t) {
        lemma_text_is_not_numeric(t.datatype);
    }
    reveal_with_fuel(first_index, 2);
    assert(seq![t][0] == t);
    assert(seq![t].drop_first().len() == 0);
}

/// A request of one numeric tensor parses to that tensor's numbers, whether they are given as
/// such or as raw bytes of the tensor's own datatype: they fill rows of as many items as the
/// shape asks for, in order, and there are no categorical rows.
pub proof fn law_numeric_tensor_parses_to_its_numbers(t: Tensor, v: Seq<Fp32>, cols: int)
    requires
        t.datatype == "FP32"@ || t.datatype == "FP64"@ || t.datatype == "INT32"@ || t.datatype
            == "INT64"@ || t.datatype == "UINT32"@ || t.datatype == "UINT64"@,
        match t.data {
            Content::Floats(w) => w == v,
            Content::RawBytes(b) => raw_floats(b, t.datatype) == Ok::<Seq<Fp32>, ParseFault>(v),
            Content::Strings(_) => false,
        },
        cols > 0,
        cols == if t.shape.len() >= 2 {
            t.shape[1] as int
        } else {
            1
        },
        v.len() as int % cols == 0,
    ensures
        parsed(seq![t]) matches Ok(r) && {
            &&& r.0.flatten() == v
            &&& r.0.len() * cols == v.len()
            &&& forall|i: int| 0 <= i < r.0.len() ==> (#[trigger] r.0[i]).len() == cols
            &&& forall|i: int, j: int|
                0 <= i < r.0.len() && 0 <= j < cols ==> (#[trigger] r.0[i][j]) == v[i * cols + j]
            &&& r.1.len() == 0
        },
{
    law_datatypes(t.datatype);
    lemma_one_tensor(t);
    law_reshape_keeps_data(v, t.shape);
    let n = v.len() as int / cols;
    vstd::arithmetic::div_mod::lemma_fundamental_div_mod(v.len() as int, cols);
    assert(n * cols == cols * n) by (nonlinear_arith);
    let r = rows(v, cols);
    assert forall|i: int, j: int| 0 <= i < r.len() && 0 <= j < cols implies (#[trigger] r[i][j])
        == v[i * cols + j] by {
        lemma_chunk_bounds(v.len() as int, cols, i);
    }
}

/// A request of one tensor of raw binary32 numbers parses to these numbers, in rows of as many
/// items as the shape asks for.
pub proof fn law_raw_fp32_tensor_parses_to_its_numbers(
    name: Seq<char>,
    shape: Seq<i64>,
    v: Seq<Fp32>,
    cols: int,
)
    requires
        cols > 0,
        cols == if shape.len() >= 2 {
            shape[1] as int
        } else {
            1
        },
        v.len() as int % cols == 0,
    ensures
        parsed(
            seq![
                Tensor {
                    name,
                    datatype: "FP32"@,
                    shape,
                    data: Content::RawBytes(
                        numbers_bytes(v.map_values(|x: Fp32| x.bits as nat), 4),
                    ),
                },
            ],
        ) matches Ok(r) && {
            &&& r.0.flatten() == v
            &&& forall|i: int| 0 <= i < r.0.len() ==> (#[trigger] r.0[i]).len() == cols
            &&& r.1.len() == 0
        },
{
    law_raw_fp32_reads_back(v);
    let data = Content::RawBytes(numbers_bytes(v.map_values(|x: Fp32| x.bits as nat), 4));
    law_numeric_tensor_parses_to_its_numbers(
        Tensor { name, datatype: "FP32"@, shape, data },
        v,
        cols,
    );
}

/// A request of one tensor of raw binary64 numbers parses to these numbers, each rounded to
/// binary32, in rows of as many items as the shape asks for.
pub proof fn law_raw_fp64_tensor_parses_to_its_numbers(
    name: Seq<char>,
    shape: Seq<i64>,
    v: Seq<Fp64>,
    cols: int,
)
    requires
        cols > 0,
        cols == if shape.len() >= 2 {
            shape[1] as int
        } else {
            1
        },
        v.len() as int % cols == 0,
    ensures
        parsed(
            seq![
                Tensor {
                    name,
                    datatype: "FP64"@,
                    shape,
                    data: Content::RawBytes(
                        numbers_bytes(v.map_values(|x: Fp64| x.bits as nat), 8),
                    ),
                },
            ],
        ) matches Ok(r) && {
            &&& r.0.flatten() == v.map_values(
                |x: Fp64| Fp32 { bits: crate::float::fp32_of_fp64(x) as u32 },
            )
            &&& forall|i: int| 0 <= i < r.0.len() ==> (#[trigger] r.0[i]).len() == cols
            &&& r.1.len() == 0
        },
{
    law_raw_fp64_reads_back(v);
    let data = Content::RawBytes(numbers_bytes(v.map_values(|x: Fp64| x.bits as nat), 8));
    law_numeric_tensor_parses_to_its_numbers(
        Tensor { name, datatype: "FP64"@, shape, data },
        v.map_values(|x: Fp64| Fp32 { bits: crate::float::fp32_of_fp64(x) as u32 }),
        cols,
    );
}

/// A request of one tensor of raw integers parses to these integers, each rounded to binary32,
/// in rows of as many items as the shape asks for. Negative integers stand in two's
/// complement.
pub proof fn law_raw_integer_tensor_parses_to_its_numbers(
    name: Seq<char>,
    datatype: Seq<char>,
    shape: Seq<i64>,
    v: Seq<int>,
    cols: int,
)
    requires
        datatype == "INT32"@ || datatype == "INT64"@ || datatype == "UINT32"@ || datatype
            == "UINT64"@,
        datatype == "INT32"@ ==> forall|i: int|
            0 <= i < v.len() ==> i32::MIN <= #[trigger] v[i] <= i32::MAX,
        datatype == "INT64"@ ==> forall|i: int|
            0 <= i < v.len() ==> i64::MIN <= #[trigger] v[i] <= i64::MAX,
        datatype == "UINT32"@ ==> forall|i: int|
            0 <= i < v.len() ==> 0 <= #[trigger] v[i] <= u32::MAX,
        datatype == "UINT64"@ ==> forall|i: int|
            0 <= i < v.len() ==> 0 <= #[trigger] v[i] <= u64::MAX,
        cols > 0,
        cols == if shape.len() >= 2 {
            shape[1] as int
        } else {
            1
        },
        v.len() as int % cols == 0,
    ensures
        ({
            let w: nat = if datatype == "INT32"@ || datatype == "UINT32"@ {
                4
            } else {
                8
            };
            let bits = v.map_values(
                |n: int|
                    if n < 0 {
                        (n + vstd::arithmetic::power2::pow2(8 * w)) as nat
                    } else {
                        n as nat
                    },
            );
            &&& parsed(
                seq![
                    Tensor {
                        name,
                        datatype,
                        shape,
                        data: Content::RawBytes(numbers_bytes(bits, w)),
                    },
                ],
            ) matches Ok(r)
            &&& r.0.flatten() == v.map_values(
                |n: int| Fp32 { bits: crate::float::fp32_of_int(n) as u32 },
            )
            &&& forall|i: int| 0 <= i < r.0.len() ==> (#[trigger] r.0[i]).len() == cols
            &&& r.1.len() == 0
        }),
{
    law_datatypes(datatype);
    let t = numeric_type(datatype)->Some_0;
    let w = t.width() as nat;
    assert forall|i: int| 0 <= i < v.len() implies integer_fits(t, #[trigger] v[i]) by {}
    law_raw_integers_read_back(v, datatype, t);
    let bits = v.map_values(
        |n: int|
            if n < 0 {
                (n + vstd::arithmetic::power2::pow2(8 * w)) as nat
            } else {
                n as nat
            },
    );
    let same = v.map_values(
        |n: int|
            if n < 0 {
                (n + vstd::arithmetic::power2::pow2(8 * t.width() as nat)) as nat
            } else {
                n as nat
            },
    );
    assert(bits =~= same);
    law_numeric_tensor_parses_to_its_numbers(
        Tensor { name, datatype, shape, data: Content::RawBytes(numbers_bytes(bits, w)) },
        v.map_values(|n: int| Fp32 { bits: crate::float::fp32_of_int(n) as u32 }),
        cols,
    );
}

/// A request of one text tensor parses to that tensor's strings, whether they are given as such
/// or as raw bytes: they fill rows of as many items as the shape asks for, in order, and there
/// are no numeric rows.
pub proof fn law_text_tensor_parses_to_its_strings(t: Tensor, v: Seq<Seq<char>>, cols: int)
    requires
        t.datatype == "BYTES"@ || t.datatype == "STRING"@,
        match t.data {
            Content::Strings(w) => w == v,
            Content::RawBytes(b) => {
                &&& b == crate::frames::framed_all(v)
                &&& crate::frames::frameable(v)
                &&& b.len() <= usize::MAX
            },
            Content::Floats(_) => false,
        },
        cols > 0,
        cols == if t.shape.len() >= 2 {
            t.shape[1] as int
        } else {
            1
        },
        v.len() as int % cols == 0,
    ensures
        parsed(seq![t]) matches Ok(r) && {
            &&& r.1.flatten() == v
            &&& r.1.len() * cols == v.len()
            &&& forall|i: int| 0 <= i < r.1.len() ==> (#[trigger] r.1[i]).len() == cols
            &&& forall|i: int, j: int|
                0 <= i < r.1.len() && 0 <= j < cols ==> (#[trigger] r.1[i][j]) == v[i * cols + j]
            &&& r.0.len() == 0
        },
{
    lemma_one_tensor(t);
    if t.data is RawBytes {
        law_raw_strings_read_back(v);
    }
    law_reshape_keeps_data(v, t.shape);
    let n = v.len() as int / cols;
    vstd::arithmetic::div_mod::lemma_fundamental_div_mod(v.len() as int, cols);
    assert(n * cols == cols * n) by (nonlinear_arith);
    let r = rows(v, cols);
    assert forall|i: int, j: int| 0 <= i < r.len() && 0 <= j < cols implies (#[trigger] r[i][j])
        == v[i * cols + j] by {
        lemma_chunk_bounds(v.len() as int, cols, i);
    }
}

/// Why a request of one tensor is rejected: for data of the other kind, for raw bytes that do
/// not decode, and for data that does not fill the rows. A tensor of an unknown datatype is
/// never rejected.
pub proof fn law_faults_of_one_tensor(t: Tensor)
    ensures
        numeric_type(t.datatype) is Some ==> match t.data {
            Content::Strings(_) => parsed(seq![t]) is Err && parsed(seq![t])->Err_0
                == ParseFault::NumericDataExpected(t.name),
            Content::Floats(v) => reshaped(v, t.shape) matches Err(e) ==> parsed(seq![t]) is Err
                && parsed(seq![t])->Err_0 == e,
            Content::RawBytes(b) => match raw_floats(b, t.datatype) {
                Err(e) => parsed(seq![t]) is Err && parsed(seq![t])->Err_0 == e,
                Ok(v) => reshaped(v, t.shape) matches Err(e) ==> parsed(seq![t]) is Err && parsed(
                    seq![t],
                )->Err_0 == e,
            },
        },
        is_text_type(t.datatype) ==> match t.data {
            Content::Floats(_) => parsed(seq![t]) is Err && parsed(seq![t])->Err_0
                == ParseFault::StringDataExpected(t.name),
            Content::Strings(v) => reshaped(v, t.shape) matches Err(e) ==> parsed(seq![t]) is Err
                && parsed(seq![t])->Err_0 == e,
            Content::RawBytes(b) => match raw_strings(b) {
                Err(e) => parsed(seq![t]) is Err && parsed(seq![t])->Err_0 == e,
                Ok(v) => reshaped(v, t.shape) matches Err(e) ==> parsed(seq![t]) is Err && parsed(
                    seq![t],
                )->Err_0 == e,
            },
        },
        numeric_type(t.datatype) is None && !is_text_type(t.datatype) ==> (parsed(seq![t])
            matches Ok(r) && r.0.len() == 0 && r.1.len() == 0),
{
    lemma_one_tensor(t);
}

/// A request parses to the numeric rows of its first numeric tensor and to the categorical rows
/// of its first text tensor, each as if that tensor stood alone. It is accepted exactly where
/// both are, and where both are rejected the fault of the earlier one counts.
pub proof fn law_first_of_each_kind_counts(tensors: Seq<Tensor>, f: int, c: int)
    requires
        0 <= f < tensors.len(),
        0 <= c < tensors.len(),
        numeric_type(tensors[f].datatype) is Some,
        is_text_type(tensors[c].datatype),
        forall|i: int| 0 <= i < f ==> numeric_type((#[trigger] tensors[i]).datatype) is None,
        forall|i: int| 0 <= i < c ==> !is_text_type((#[trigger] tensors[i]).datatype),
    ensures
        parsed(tensors) is Ok <==> parsed(seq![tensors[f]]) is Ok && parsed(
            seq![tensors[c]],
        ) is Ok,
        parsed(tensors) matches Ok(r) ==> {
            &&& r.0 == parsed(seq![tensors[f]])->Ok_0.0
            &&& r.1 == parsed(seq![tensors[c]])->Ok_0.1
        },
        parsed(seq![tensors[f]]) matches Err(e) ==> (f < c || parsed(seq![tensors[c]]) is Ok
            ==> parsed(tensors) is Err && parsed(tensors)->Err_0 == e),
        parsed(seq![tensors[c]]) matches Err(e) ==> (c < f || parsed(seq![tensors[f]]) is Ok
            ==> parsed(tensors) is Err && parsed(tensors)->Err_0 == e),
{
    lemma_text_is_not_numeric(tensors[c].datatype);
    lemma_one_tensor(tensors[f]);
    lemma_one_tensor(tensors[c]);
    lemma_first_index_is(tensors, |t: Tensor| is_numeric(t), f);
    lemma_first_index_is(tensors, |t: Tensor| is_text(t), c);
}

/// A request without a text tensor parses to the numeric rows of its first numeric tensor, one
/// without a numeric tensor to the categorical rows of its first text tensor, and one with
/// neither to nothing.
pub proof fn law_requests_of_one_kind(tensors: Seq<Tensor>, k: int)
    ensures
        0 <= k < tensors.len() && numeric_type(tensors[k].datatype) is Some && (forall|i: int|
            0 <= i < k ==> numeric_type((#[trigger] tensors[i]).datatype) is None) && (forall|
            i: int,
        |
            0 <= i < tensors.len() ==> !is_text_type((#[trigger] tensors[i]).datatype))
            ==> parsed(tensors) == parsed(seq![tensors[k]]),
        0 <= k < tensors.len() && is_text_type(tensors[k].datatype) && (forall|i: int|
            0 <= i < k ==> !is_text_type((#[trigger] tensors[i]).datatype)) && (forall|i: int|
            0 <= i < tensors.len() ==> numeric_type((#[trigger] tensors[i]).datatype) is None)
            ==> parsed(tensors) == parsed(seq![tensors[k]]),
        (forall|i: int|
            0 <= i < tensors.len() ==> numeric_type((#[trigger] tensors[i]).datatype) is None
                && !is_text_type(tensors[i].datatype)) ==> (parsed(tensors) matches Ok(r)
            && r.0.len() == 0 && r.1.len() == 0),
{
    let numeric = |t: Tensor| is_numeric(t);
    let text = |t: Tensor| is_text(t);
    lemma_first_index(tensors, numeric);
    lemma_first_index(tensors, text);
    if 0 <= k < tensors.len() {
        lemma_one_tensor(tensors[k]);
        if numeric(tensors[k]) && (forall|i: int| 0 <= i < k ==> !numeric(#[trigger] tensors[i])) {
            lemma_first_index_is(tensors, numeric, k);
        }
        if text(tensors[k]) && (forall|i: int| 0 <= i < k ==> !text(#[trigger] tensors[i])) {
            lemma_first_index_is(tensors, text, k);
        }
    }
}

proof fn lemma_first_index_is(tensors: Seq<Tensor>, wanted: spec_fn(Tensor) -> bool, k: int)
    requires
        0 <= k < tensors.len(),
        wanted(tensors[k]),
        forall|i: int| 0 <= i < k ==> !wanted(#[trigger] tensors[i]),
    ensures
        first_index(tensors, wanted) == k,
{
    lemma_first_index(tensors, wanted);
    let n = first_index(tensors, wanted);
    if n < k {
        assert(!wanted(tensors[n]));
    }
}

/// The data of a JSON tensor: an array of a numeric datatype is read as numbers and one of a
/// text datatype as strings, one by one; what is no array, has another datatype or holds a
/// value of another kind is rejected, and the first such value is named.
pub proof fn law_json_data_is_read_one_by_one(
    a: Seq<crate::json::Json>,
    value: crate::json::Json,
    datatype: Seq<char>,
    k: int,
)
    ensures
        !(value is Array) ==> tensor_data(value, datatype) == Err::<Content, ParseFault>(
            ParseFault::NotArray,
        ),
        numeric_type(datatype) is None && !is_text_type(datatype) ==> tensor_data(
            crate::json::Json::Array(a),
            datatype,
        ) == Err::<Content, ParseFault>(ParseFault::UnsupportedDatatype(datatype)),
        numeric_type(datatype) is Some ==> {
            let s = crate::json::leaves(a);
            let r = tensor_data(crate::json::Json::Array(a), datatype);
            &&& (forall|i: int| 0 <= i < s.len() ==> #[trigger] s[i] is Number) ==> {
                &&& r matches Ok(Content::Floats(v))
                &&& v.len() == s.len()
                &&& forall|i: int|
                    0 <= i < v.len() ==> (#[trigger] v[i]) == s[i]->Number_0.fp32()
            }
            &&& 0 <= k < s.len() && !(s[k] is Number) && (forall|i: int|
                0 <= i < k ==> #[trigger] s[i] is Number) ==> r == Err::<Content, ParseFault>(
                ParseFault::ExpectedNumber(s[k]),
            )
        },
        is_text_type(datatype) ==> {
            let s = crate::json::leaves(a);
            let r = tensor_data(crate::json::Json::Array(a), datatype);
            &&& (forall|i: int| 0 <= i < s.len() ==> #[trigger] s[i] is String) ==> {
                &&& r matches Ok(Content::Strings(v))
                &&& v.len() == s.len()
                &&& forall|i: int| 0 <= i < v.len() ==> (#[trigger] v[i]) == s[i]->String_0
            }
            &&& 0 <= k < s.len() && !(s[k] is String) && (forall|i: int|
                0 <= i < k ==> #[trigger] s[i] is String) ==> r == Err::<Content, ParseFault>(
                ParseFault::ExpectedString(s[k]),
            )
        },
{
    if is_text_type(datatype) {
        lemma_text_is_not_numeric(datatype);
    }
    crate::json::law_numbers_are_read_one_by_one(a, k);
    crate::json::law_strings_are_read_one_by_one(a, k);
}

/// What is wrong with raw strings: bytes behind whole strings that are no length, a length
/// that is larger than what follows, or a string that is not UTF-8.
pub proof fn law_raw_string_faults(ss: Seq<Seq<char>>, tail: Seq<u8>)
    requires
        crate::frames::frameable(ss),
        crate::frames::framed_all(ss).len() + tail.len() <= usize::MAX,
    ensures
        0 < tail.len() < 4 ==> raw_strings(crate::frames::framed_all(ss) + tail) == Err::<
            Seq<Seq<char>>,
            ParseFault,
        >(ParseFault::TrailingBytes),
        tail.len() >= 4 ==> {
            let len = tail[0] + 256 * tail[1] + 65536 * tail[2] + 16777216 * tail[3];
            &&& len > tail.len() - 4 ==> raw_strings(crate::frames::framed_all(ss) + tail) == Err::<
                Seq<Seq<char>>,
                ParseFault,
            >(ParseFault::StringOverrun)
            &&& len <= tail.len() - 4 ==> (crate::text::decoded(tail.subrange(4, 4 + len))
                matches Err(fault) ==> raw_strings(crate::frames::framed_all(ss) + tail) == Err::<
                Seq<Seq<char>>,
                ParseFault,
            >(ParseFault::InvalidUtf8(fault)))
        },
{
    crate::frames::law_scan_faults(ss, tail);
}

/// An error says what its fields hold.
pub proof fn law_error_is_its_fields(s: String, v: JsonValue, n: usize, c: i64, f: Utf8Fault)
    ensures
        ParseError::NotArray@ == ParseFault::NotArray,
        ParseError::StringOverrun@ == ParseFault::StringOverrun,
        ParseError::TrailingBytes@ == ParseFault::TrailingBytes,
        ParseError::ExpectedNumber(v)@ == ParseFault::ExpectedNumber(v@),
        ParseError::ExpectedString(v)@ == ParseFault::ExpectedString(v@),
        ParseError::UnsupportedDatatype(s)@ == ParseFault::UnsupportedDatatype(s@),
        ParseError::UndecodableDatatype(s)@ == ParseFault::UndecodableDatatype(s@),
        ParseError::InvalidUtf8(f)@ == ParseFault::InvalidUtf8(f),
        ParseError::NonPositiveColumns(c)@ == ParseFault::NonPositiveColumns(c),
        ParseError::NumericDataExpected(s)@ == ParseFault::NumericDataExpected(s@),
        ParseError::StringDataExpected(s)@ == ParseFault::StringDataExpected(s@),
        (ParseError::RaggedBytes { len: n, width: 4 })@ == (ParseFault::RaggedBytes {
            len: n,
            width: 4,
        }),
        (ParseError::RaggedBytes { len: n, width: 8 })@ == (ParseFault::RaggedBytes {
            len: n,
            width: 8,
        }),
        (ParseError::IndivisibleLength { len: n, cols: c })@ == (ParseFault::IndivisibleLength {
            len: n,
            cols: c,
        }),
{
}

/// Raw numbers that are sent in a request come out in its rows: those of a tensor of binary64
/// numbers rounded to binary32, in order, as many in a row as its shape asks for.
pub proof fn law_raw_fp64_request_is_parsed(
    tensors: Vec<RawTensor>,
    bytes: Vec<u8>,
    v: Seq<Fp64>,
    cols: int,
    r: Result<InferInputs, ParseError>,
)
    requires
        call_ensures(parse_inputs, (tensors,), r),
        tensors@.len() == 1,
        tensors@[0].datatype@ == "FP64"@,
        tensors@[0].data == TensorData::RawBytes(bytes),
        bytes@ == numbers_bytes(v.map_values(|x: Fp64| x.bits as nat), 8),
        cols > 0,
        cols == if tensors@[0].shape@.len() >= 2 {
            tensors@[0].shape@[1] as int
        } else {
            1
        },
        v.len() as int % cols == 0,
    ensures
        r matches Ok(inputs) && {
            &&& inputs.cat_features@.len() == 0
            &&& inputs.float_features@.len() * cols == v.len()
            &&& forall|i: int|
                0 <= i < inputs.float_features@.len() ==> (
                #[trigger] inputs.float_features@[i])@.len() == cols
            &&& forall|i: int, j: int|
                0 <= i < inputs.float_features@.len() && 0 <= j < cols ==> (
                #[trigger] inputs.float_features@[i]@[j]).bits == crate::float::fp32_of_fp64(
                    v[i * cols + j],
                )
        },
{
    let t = tensors@[0]@;
    let want = v.map_values(|x: Fp64| Fp32 { bits: crate::float::fp32_of_fp64(x) as u32 });
    assert(tensors_of(tensors@) =~= seq![t]);
    law_datatypes(t.datatype);
    law_raw_fp64_reads_back(v);
    law_numeric_tensor_parses_to_its_numbers(t, want, cols);
    let inputs = r->Ok_0;
    assert(inputs.cats().len() == inputs.cat_features@.len());
    assert(inputs.floats().len() == inputs.float_features@.len());
    assert forall|i: int| 0 <= i < inputs.float_features@.len() implies (
    #[trigger] inputs.float_features@[i])@ == inputs.floats()[i] by {}
    assert forall|i: int, j: int|
        0 <= i < inputs.float_features@.len() && 0 <= j < cols implies (
    #[trigger] inputs.float_features@[i]@[j]).bits == crate::float::fp32_of_fp64(
        v[i * cols + j],
    ) by {
        let n = inputs.float_features@.len() as int;
        assert(0 <= i * cols + j < n * cols) by (nonlinear_arith)
            requires
                0 <= i < n,
                0 <= j < cols,
        ;
        assert(inputs.floats()[i][j] == want[i * cols + j]);
        crate::float::law_binary64_in_fields(v[i * cols + j]);
    }
}

/// Strings that are sent in a request come out in its rows, in order, as many in a row as the
/// shape of their tensor asks for.
pub proof fn law_text_request_is_parsed(
    tensors: Vec<RawTensor>,
    v: Vec<String>,
    cols: int,
    r: Result<InferInputs, ParseError>,
)
    requires
        call_ensures(parse_inputs, (tensors,), r),
        tensors@.len() == 1,
        tensors@[0].datatype@ == "BYTES"@ || tensors@[0].datatype@ == "STRING"@,
        tensors@[0].data == TensorData::Strings(v),
        cols > 0,
        cols == if tensors@[0].shape@.len() >= 2 {
            tensors@[0].shape@[1] as int
        } else {
            1
        },
        v@.len() as int % cols == 0,
    ensures
        r matches Ok(inputs) && {
            &&& inputs.float_features@.len() == 0
            &&& inputs.cat_features@.len() * cols == v@.len()
            &&& forall|i: int|
                0 <= i < inputs.cat_features@.len() ==> (
                #[trigger] inputs.cat_features@[i])@.len() == cols
            &&& forall|i: int, j: int|
                0 <= i < inputs.cat_features@.len() && 0 <= j < cols ==> (
                #[trigger] inputs.cat_features@[i]@[j])@ == v@[i * cols + j]@
        },
{
    let t = tensors@[0]@;
    let want = crate::frames::texts(v@);
    assert(tensors_of(tensors@) =~= seq![t]);
    law_text_tensor_parses_to_its_strings(t, want, cols);
    let inputs = r->Ok_0;
    assert(inputs.floats().len() == inputs.float_features@.len());
    assert(inputs.cats().len() == inputs.cat_features@.len());
    assert forall|i: int| 0 <= i < inputs.cat_features@.len() implies (
    #[trigger] inputs.cat_features@[i])@.len() == cols by {
        assert(inputs.cats()[i].len() == inputs.cat_features@[i]@.len());
    }
    assert forall|i: int, j: int| 0 <= i < inputs.cat_features@.len() && 0 <= j < cols implies (
    #[trigger] inputs.cat_features@[i]@[j])@ == v@[i * cols + j]@ by {
        let n = inputs.cat_features@.len() as int;
        assert(0 <= i * cols + j < n * cols) by (nonlinear_arith)
            requires
                0 <= i < n,
                0 <= j < cols,
        ;
        assert(inputs.cat_features@[i]@.len() == cols);
        assert(inputs.cats()[i][j] == inputs.cat_features@[i]@[j]@);
        assert(inputs.cats()[i][j] == want[i * cols + j]);
    }
}

/// Rows that are cut from flat data have the items where they stood in it.
pub proof fn law_reshaped_items_stay_in_order<T: Clone>(
    flat: Vec<T>,
    shape: &[i64],
    r: Result<Vec<Vec<T>>, ParseError>,
)
    requires
        call_ensures(reshape::<T>, (flat, shape), r),
        flat@.len() <= usize::MAX,
    ensures
        ({
            let cols = if shape@.len() >= 2 {
                shape@[1]
            } else {
                1
            };
            &&& r is Ok <==> cols > 0 && flat@.len() as int % cols as int == 0
            &&& r matches Ok(v) ==> {
                &&& v@.len() * cols == flat@.len()
                &&& forall|i: int| 0 <= i < v@.len() ==> (#[trigger] v@[i])@.len() == cols
                &&& forall|i: int, j: int|
                    0 <= i < v@.len() && 0 <= j < cols ==> (#[trigger] v@[i]@[j]) == flat@[i * cols
                        + j]
            }
        }),
{
    let cols: i64 = if shape@.len() >= 2 {
        shape@[1]
    } else {
        1
    };
    law_reshape_in_numbers(flat@, shape@, cols);
    if let Ok(v) = r {
        let g = crate::inference::grid(v@);
        assert(g.len() == v@.len());
        assert forall|i: int| 0 <= i < v@.len() implies (#[trigger] v@[i])@ == g[i] by {}
        assert forall|i: int, j: int| 0 <= i < v@.len() && 0 <= j < cols implies (
        #[trigger] v@[i]@[j]) == flat@[i * cols + j] by {
            assert(g[i][j] == flat@[i * cols + j]);
        }
    }
}

} // verus!
