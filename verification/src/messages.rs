//! The texts of errors.
//!
//! An error that holds a JSON value is written with the text of that value, and rows without
//! a single item with the text of the task that they break off. Callers hand these texts in;
//! for every other error they are not looked at.
use vstd::prelude::*;
use vstd::string::StringExecFns;

use crate::decimal::{to_decimal, to_signed_decimal};
use crate::grpc::{FeatureError, FeatureFault};
use crate::inference::batcher::InferError;
use crate::inference::parse::{ParseError, ParseFault};
use crate::tensor::{ExtractError, ExtractFault, TensorError, TensorFault};
use crate::text::Utf8Fault;

verus! {

/// The text of a number.
pub open spec fn number(n: usize) -> Seq<char> {
    crate::decimal::decimal(n as nat)
}

fn show(n: usize) -> (s: String)
    ensures
        s@ == number(n),
{
    to_decimal(n as u64)
}

/// Text between other texts.
pub open spec fn between(before: Seq<char>, s: Seq<char>, after: Seq<char>) -> Seq<char> {
    before + s + after
}

fn put_between(before: &str, s: &str, after: &str) -> (r: String)
    ensures
        r@ == between(before@, s@, after@),
{
    let mut r = before.to_owned();
    r.append(s);
    r.append(after);
    r
}

/// The text behind an introduction.
pub open spec fn behind(before: Seq<char>, s: Seq<char>) -> Seq<char> {
    before + s
}

fn put_behind(before: &str, s: &str) -> (r: String)
    ensures
        r@ == behind(before@, s@),
{
    let mut r = before.to_owned();
    r.append(s);
    r
}

/// The dimensions, with commas between them.
pub open spec fn dimensions(shape: Seq<i64>) -> Seq<char>
    decreases shape.len(),
{
    if shape.len() == 0 {
        ""@
    } else if shape.len() == 1 {
        crate::decimal::signed_decimal(shape[0] as int)
    } else {
        dimensions(shape.drop_last()) + ", "@ + crate::decimal::signed_decimal(
            shape.last() as int,
        )
    }
}

/// The text of a shape.
pub open spec fn shape_text(shape: Seq<i64>) -> Seq<char> {
    between("["@, dimensions(shape), "]"@)
}

fn show_shape(shape: &Vec<i64>) -> (s: String)
    ensures
        s@ == shape_text(shape@),
{
    let n: usize = shape.len();
    let mut s = "".to_owned();
    let mut i: usize = 0;
    assert(shape@.take(0) =~= seq![]);
    while i < n
        invariant
            n == shape@.len(),
            i <= n,
            s@ == dimensions(shape@.take(i as int)),
        decreases n - i,
    {
        proof {
            assert(shape@.take(i + 1).drop_last() =~= shape@.take(i as int));
            assert(shape@.take(i + 1).last() == shape@[i as int]);
        }
        if i == 0 {
            s = to_signed_decimal(shape[i]);
        } else {
            s.append(", ");
            s.append(to_signed_decimal(shape[i]).as_str());
        }
        i = i + 1;
    }
    assert(shape@.take(i as int) =~= shape@);
    put_between("[", &s, "]")
}

impl Utf8Fault {
    /// The text of the fault.
    pub open spec fn text(self) -> Seq<char> {
        match self.error_len {
            Some(len) => between(
                behind("invalid utf-8 sequence of "@, number(len)),
                " bytes from index "@,
                number(self.valid_up_to),
            ),
            None => behind("incomplete utf-8 byte sequence from index "@, number(self.valid_up_to)),
        }
    }

    /// The text of the fault.
    pub fn message(&self) -> (s: String)
        ensures
            s@ == self.text(),
    {
        match self.error_len {
            Some(len) => put_between(
                &put_behind("invalid utf-8 sequence of ", &show(len)),
                " bytes from index ",
                &show(self.valid_up_to),
            ),
            None => put_behind(
                "incomplete utf-8 byte sequence from index ",
                &show(self.valid_up_to),
            ),
        }
    }
}

impl ParseFault {
    /// The text of the fault, where it holds a JSON value with the text `value`.
    pub open spec fn text(self, value: Seq<char>) -> Seq<char> {
        match self {
            ParseFault::NotArray => "tensor 'data' must be a JSON array"@,
            ParseFault::ExpectedNumber(_) => behind("expected number or array, got: "@, value),
            ParseFault::ExpectedString(_) => behind("expected string or array, got: "@, value),
            ParseFault::UnsupportedDatatype(d) => behind("unsupported datatype: "@, d),
            ParseFault::UndecodableDatatype(d) => between(
                "cannot decode "@,
                d,
                " from raw bytes"@,
            ),
            ParseFault::RaggedBytes { len, width } => between(
                behind("raw bytes length "@, number(len)),
                " is not a multiple of "@,
                number(width),
            ),
            ParseFault::StringOverrun => "malformed BYTES tensor: string overruns buffer"@,
            ParseFault::TrailingBytes =>
                "malformed BYTES tensor: trailing bytes after last string"@,
            ParseFault::InvalidUtf8(f) => f.text(),
            ParseFault::NonPositiveColumns(n) => behind(
                "invalid tensor shape: non-positive column count "@,
                crate::decimal::signed_decimal(n as int),
            ),
            ParseFault::IndivisibleLength { len, cols } => between(
                behind("tensor data length "@, number(len)),
                " is not divisible by column count "@,
                crate::decimal::signed_decimal(cols as int),
            ),
            ParseFault::NumericDataExpected(name) => between(
                "expected numeric data for tensor '"@,
                name,
                "'"@,
            ),
            ParseFault::StringDataExpected(name) => between(
                "expected string data for tensor '"@,
                name,
                "'"@,
            ),
        }
    }
}

impl ParseError {
    /// The text of the error. `value` is the text of the JSON value that it holds, if any.
    pub fn message(&self, value: &str) -> (s: String)
        ensures
            s@ == self@.text(value@),
    {
        match self {
            ParseError::NotArray => "tensor 'data' must be a JSON array".to_owned(),
            ParseError::ExpectedNumber(_) => put_behind("expected number or array, got: ", value),
            ParseError::ExpectedString(_) => put_behind("expected string or array, got: ", value),
            ParseError::UnsupportedDatatype(d) => put_behind("unsupported datatype: ", d),
            ParseError::UndecodableDatatype(d) => put_between(
                "cannot decode ",
                d,
                " from raw bytes",
            ),
            ParseError::RaggedBytes { len, width } => put_between(
                &put_behind("raw bytes length ", &show(*len)),
                " is not a multiple of ",
                &show(*width),
            ),
            ParseError::StringOverrun =>
                "malformed BYTES tensor: string overruns buffer".to_owned(),
            ParseError::TrailingBytes =>
                "malformed BYTES tensor: trailing bytes after last string".to_owned(),
            ParseError::InvalidUtf8(f) => f.message(),
            ParseError::NonPositiveColumns(n) => put_behind(
                "invalid tensor shape: non-positive column count ",
                &to_signed_decimal(*n),
            ),
            ParseError::IndivisibleLength { len, cols } => put_between(
                &put_behind("tensor data length ", &show(*len)),
                " is not divisible by column count ",
                &to_signed_decimal(*cols),
            ),
            ParseError::NumericDataExpected(name) => put_between(
                "expected numeric data for tensor '",
                name,
                "'",
            ),
            ParseError::StringDataExpected(name) => put_between(
                "expected string data for tensor '",
                name,
                "'",
            ),
        }
    }
}

/// The text that tells a length and the shape that it does not have.
pub open spec fn length_text(what: Seq<char>, len: usize, batch: usize, features: usize) -> Seq<
    char,
> {
    between(
        behind(what, number(len)),
        between(" ≠ shape "@, number(batch), "×"@),
        number(features),
    )
}

fn length_message(what: &str, len: usize, batch: usize, features: usize) -> (s: String)
    ensures
        s@ == length_text(what@, len, batch, features),
{
    put_between(
        &put_behind(what, &show(len)),
        &put_between(" ≠ shape ", &show(batch), "×"),
        &show(features),
    )
}

impl TensorFault {
    /// The text of the fault, where it holds a JSON value with the text `value`.
    pub open spec fn text(self, value: Seq<char>) -> Seq<char> {
        match self {
            TensorFault::NotArray => "expected JSON array for tensor data"@,
            TensorFault::ExpectedNumber(_) => behind(
                "expected number in float tensor, got "@,
                value,
            ),
            TensorFault::ExpectedString(_) => behind("expected string in cat tensor, got "@, value),
            TensorFault::InvalidShape(s) => behind("invalid 2-D shape "@, shape_text(s)),
            TensorFault::NotTwoDimensional(s) => behind(
                "expected 2-D shape for batched features, got "@,
                shape_text(s),
            ),
            TensorFault::FloatRank(s) => behind(
                "float features must be 1-D or 2-D, got "@,
                shape_text(s),
            ),
            TensorFault::FloatLength { len, batch, features } => if features > 0 && len % features
                != 0 {
                between(
                    between("flat length "@, number(len), " is not divisible by "@),
                    number(features),
                    " features"@,
                )
            } else {
                length_text("flat length "@, len, batch, features)
            },
            TensorFault::CatRank => "cat features must be 1-D or 2-D"@,
            TensorFault::CatLength { len, batch, features } => length_text(
                "cat data length "@,
                len,
                batch,
                features,
            ),
            TensorFault::RaggedBytes { len, width } => between(
                behind(
                    if width == 8 {
                        "raw double bytes length "@
                    } else {
                        "raw float bytes length "@
                    },
                    number(len),
                ),
                " is not a multiple of "@,
                number(width),
            ),
            TensorFault::TruncatedPrefix { offset } => behind(
                "truncated length prefix at offset "@,
                number(offset),
            ),
            TensorFault::TruncatedText { len, offset } => between(
                behind("string data truncated: expected "@, number(len)),
                " bytes at offset "@,
                number(offset),
            ),
            TensorFault::InvalidUtf8(f) => behind("invalid UTF-8 in cat feature: "@, f.text()),
        }
    }
}

impl TensorError {
    /// The text of the error. `value` is the text of the JSON value that it holds, if any.
    pub fn message(&self, value: &str) -> (s: String)
        ensures
            s@ == self@.text(value@),
    {
        match self {
            TensorError::NotArray => "expected JSON array for tensor data".to_owned(),
            TensorError::ExpectedNumber(_) => put_behind(
                "expected number in float tensor, got ",
                value,
            ),
            TensorError::ExpectedString(_) => put_behind(
                "expected string in cat tensor, got ",
                value,
            ),
            TensorError::InvalidShape(s) => put_behind("invalid 2-D shape ", &show_shape(s)),
            TensorError::NotTwoDimensional(s) => put_behind(
                "expected 2-D shape for batched features, got ",
                &show_shape(s),
            ),
            TensorError::FloatRank(s) => put_behind(
                "float features must be 1-D or 2-D, got ",
                &show_shape(s),
            ),
            TensorError::FloatLength { len, batch, features } => if *features > 0 && *len
                % *features != 0 {
                put_between(
                    &put_between("flat length ", &show(*len), " is not divisible by "),
                    &show(*features),
                    " features",
                )
            } else {
                length_message("flat length ", *len, *batch, *features)
            },
            TensorError::CatRank => "cat features must be 1-D or 2-D".to_owned(),
            TensorError::CatLength { len, batch, features } => length_message(
                "cat data length ",
                *len,
                *batch,
                *features,
            ),
            TensorError::RaggedBytes { len, width } => {
                let what = if *width == 8 {
                    "raw double bytes length "
                } else {
                    "raw float bytes length "
                };
                put_between(
                    &put_behind(what, &show(*len)),
                    " is not a multiple of ",
                    &show(*width),
                )
            },
            TensorError::TruncatedPrefix { offset } => put_behind(
                "truncated length prefix at offset ",
                &show(*offset),
            ),
            TensorError::TruncatedText { len, offset } => put_between(
                &put_behind("string data truncated: expected ", &show(*len)),
                " bytes at offset ",
                &show(*offset),
            ),
            TensorError::InvalidUtf8(f) => put_behind(
                "invalid UTF-8 in cat feature: ",
                &f.message(),
            ),
        }
    }
}

impl ExtractFault {
    /// The text of the fault. `shown` is the text of the JSON value that it holds, or of the
    /// task that it breaks off.
    pub open spec fn text(self, shown: Seq<char>) -> Seq<char> {
        match self {
            ExtractFault::Tensor(f) => f.text(shown),
            ExtractFault::ZeroWidth => shown,
        }
    }
}

impl ExtractError {
    /// The text of the error. `shown` is the text of the JSON value that it holds, or of the
    /// task that it breaks off.
    pub fn message(&self, shown: &str) -> (s: String)
        ensures
            s@ == self@.text(shown@),
    {
        match self {
            ExtractError::Tensor(e) => e.message(shown),
            ExtractError::ZeroWidth => shown.to_owned(),
        }
    }
}

impl FeatureFault {
    /// The text of the fault. `task` is the text of the task that it breaks off, if it does.
    pub open spec fn text(self, task: Seq<char>) -> Seq<char> {
        match self {
            FeatureFault::NoFloatInput => "no float_features input found"@,
            FeatureFault::RawMissing(i) => between(
                "raw_input_contents["@,
                crate::decimal::decimal(i as nat),
                "] missing"@,
            ),
            FeatureFault::EmptyFloats => "float_features contents are empty"@,
            FeatureFault::NoFloatData => "float_features has neither contents nor raw bytes"@,
            FeatureFault::NoCatData => "cat_features has neither contents nor raw bytes"@,
            FeatureFault::InvalidUtf8(f) => behind("invalid UTF-8 in cat feature: "@, f.text()),
            FeatureFault::Extract(f) => f.text(task),
        }
    }
}

impl FeatureError {
    /// The text of the error. `task` is the text of the task that it breaks off, if it does.
    pub fn message(&self, task: &str) -> (s: String)
        ensures
            s@ == self@.text(task@),
    {
        match self {
            FeatureError::NoFloatInput => "no float_features input found".to_owned(),
            FeatureError::RawMissing(i) => put_between(
                "raw_input_contents[",
                &show(*i),
                "] missing",
            ),
            FeatureError::EmptyFloats => "float_features contents are empty".to_owned(),
            FeatureError::NoFloatData =>
                "float_features has neither contents nor raw bytes".to_owned(),
            FeatureError::NoCatData => "cat_features has neither contents nor raw bytes".to_owned(),
            FeatureError::InvalidUtf8(f) => put_behind(
                "invalid UTF-8 in cat feature: ",
                &f.message(),
            ),
            FeatureError::Extract(e) => e.message(task),
        }
    }
}

impl InferError {
    /// The text of the error.
    pub open spec fn text(self) -> Seq<char> {
        match self {
            InferError::Overload(_) => "server overloaded, try again later"@,
            InferError::ShutDown => "batcher shut down"@,
            InferError::Dropped => "batcher dropped response"@,
            InferError::Failed(text) => text@,
        }
    }

    /// The text of the error.
    pub fn message(&self) -> (s: String)
        ensures
            s@ == self.text(),
    {
        match self {
            InferError::Overload(e) => e.message(),
            InferError::ShutDown => "batcher shut down".to_owned(),
            InferError::Dropped => "batcher dropped response".to_owned(),
            InferError::Failed(text) => text.clone(),
        }
    }
}

/// The text of a missing model in the flat-buffer front ends.
pub open spec fn model_not_found(name: Seq<char>) -> Seq<char> {
    between("model '"@, name, "' not found"@)
}

/// The text of a missing model in the batching server.
pub open spec fn no_model(name: Seq<char>) -> Seq<char> {
    between("no model '"@, name, "'"@)
}

impl crate::http::HttpError {
    /// The text of the response. `shown` is the text of the JSON value that the error
    /// holds, or of the task that it breaks off.
    pub fn message(&self, shown: &str) -> (s: String)
        ensures
            s@ == match self.reason@ {
                crate::http::ReasonView::ModelNotFound(name) => model_not_found(name),
                crate::http::ReasonView::Features(f) => f.text(shown@),
                crate::http::ReasonView::Predict(text) => text,
                crate::http::ReasonView::Task(text) => text,
                crate::http::ReasonView::Reload(text) => text,
            },
    {
        match &self.reason {
            crate::http::Reason::ModelNotFound(name) => put_between("model '", name, "' not found"),
            crate::http::Reason::Features(e) => e.message(shown),
            crate::http::Reason::Predict(text) => text.clone(),
            crate::http::Reason::Task(text) => text.clone(),
            crate::http::Reason::Reload(text) => text.clone(),
        }
    }
}

impl crate::grpc::GrpcError {
    /// The text of the failure. `task` is the text of the task that it breaks off, if it
    /// does.
    pub fn message(&self, task: &str) -> (s: String)
        ensures
            s@ == match self.reason@ {
                crate::grpc::ReasonView::ModelNotFound(name) => model_not_found(name),
                crate::grpc::ReasonView::Features(f) => f.text(task@),
                crate::grpc::ReasonView::Predict(text) => text,
                crate::grpc::ReasonView::Task(text) => text,
            },
    {
        match &self.reason {
            crate::grpc::Reason::ModelNotFound(name) => put_between("model '", name, "' not found"),
            crate::grpc::Reason::Features(e) => e.message(task),
            crate::grpc::Reason::Predict(text) => text.clone(),
            crate::grpc::Reason::Task(text) => text.clone(),
        }
    }
}

fn not_loaded(name: &str) -> (s: String)
    ensures
        s@ == crate::model::registry::not_loaded_text(name@),
{
    put_between("model '", name, "' is not loaded")
}

impl crate::server::http::AppError {
    /// The text of the response. `value` is the text of the JSON value that the error
    /// holds, if any.
    pub fn message(&self, value: &str) -> (s: String)
        ensures
            s@ == match self.reason@ {
                crate::server::http::ReasonView::NoModel(name) => no_model(name),
                crate::server::http::ReasonView::NotLoaded(name) =>
                    crate::model::registry::not_loaded_text(name),
                crate::server::http::ReasonView::Parse(f) => f.text(value@),
                crate::server::http::ReasonView::Infer(e) => e.text(),
                crate::server::http::ReasonView::Load(text) => text,
            },
    {
        match &self.reason {
            crate::server::http::Reason::NoModel(name) => put_between("no model '", name, "'"),
            crate::server::http::Reason::NotLoaded(name) => not_loaded(name),
            crate::server::http::Reason::Parse(e) => e.message(value),
            crate::server::http::Reason::Infer(e) => e.message(),
            crate::server::http::Reason::Load(text) => text.clone(),
        }
    }
}

impl crate::server::grpc::GrpcError {
    /// The text of the failure.
    pub fn message(&self) -> (s: String)
        ensures
            s@ == match self.reason@ {
                crate::server::grpc::ReasonView::NoModel(name) => no_model(name),
                crate::server::grpc::ReasonView::NotLoaded(name) =>
                    crate::model::registry::not_loaded_text(name),
                crate::server::grpc::ReasonView::InvalidUtf8(f) => f.text(),
                crate::server::grpc::ReasonView::Parse(f) => f.text(""@),
                crate::server::grpc::ReasonView::Infer(e) => e.text(),
            },
    {
        match &self.reason {
            crate::server::grpc::Reason::NoModel(name) => put_between("no model '", name, "'"),
            crate::server::grpc::Reason::NotLoaded(name) => not_loaded(name),
            crate::server::grpc::Reason::InvalidUtf8(f) => f.message(),
            crate::server::grpc::Reason::Parse(e) => e.message(""),
            crate::server::grpc::Reason::Infer(e) => e.message(),
        }
    }
}

proof fn lemma_dimensions_grow(shape: Seq<i64>, d: i64)
    requires
        shape.len() > 0,
    ensures
        dimensions(shape.push(d)) == dimensions(shape) + ", "@ + crate::decimal::signed_decimal(
            d as int,
        ),
{
    assert(shape.push(d).drop_last() =~= shape);
}

/// The text of a shape has its dimensions in square brackets, in order, with a comma and a space
/// between each two.
pub proof fn law_shape_text(shape: Seq<i64>, d: i64)
    ensures
        shape_text(Seq::<i64>::empty()) == "[]"@,
        shape_text(seq![d]) == "["@ + crate::decimal::signed_decimal(d as int) + "]"@,
        shape.len() > 0 ==> shape_text(shape.push(d)) == shape_text(shape).drop_last() + ", "@
            + crate::decimal::signed_decimal(d as int) + "]"@,
{
    reveal_strlit("[");
    reveal_strlit("]");
    reveal_strlit("[]");
    reveal_strlit("");
    assert(shape_text(Seq::<i64>::empty()) =~= "[]"@);
    if shape.len() > 0 {
        lemma_dimensions_grow(shape, d);
        assert(shape_text(shape).drop_last() =~= "["@ + dimensions(shape));
        assert(shape_text(shape.push(d)) =~= shape_text(shape).drop_last() + ", "@
            + crate::decimal::signed_decimal(d as int) + "]"@);
    }
}

/// What the texts of rejected tensors tell: each of them the numbers, the name or the value that
/// it is about.
pub proof fn law_parse_texts(
    value: Seq<char>,
    s: Seq<char>,
    json: crate::json::Json,
    len: usize,
    width: usize,
    cols: i64,
    f: Utf8Fault,
)
    ensures
        ParseFault::NotArray.text(value) == "tensor 'data' must be a JSON array"@,
        ParseFault::ExpectedNumber(json).text(value) == "expected number or array, got: "@ + value,
        ParseFault::ExpectedString(json).text(value) == "expected string or array, got: "@ + value,
        ParseFault::UnsupportedDatatype(s).text(value) == "unsupported datatype: "@ + s,
        ParseFault::UndecodableDatatype(s).text(value) == "cannot decode "@ + s
            + " from raw bytes"@,
        (ParseFault::RaggedBytes { len, width }).text(value) == "raw bytes length "@
            + crate::decimal::decimal(len as nat) + " is not a multiple of "@
            + crate::decimal::decimal(width as nat),
        ParseFault::StringOverrun.text(value) == "malformed BYTES tensor: string overruns buffer"@,
        ParseFault::TrailingBytes.text(value)
            == "malformed BYTES tensor: trailing bytes after last string"@,
        ParseFault::InvalidUtf8(f).text(value) == f.text(),
        ParseFault::NonPositiveColumns(cols).text(value)
            == "invalid tensor shape: non-positive column count "@ + crate::decimal::signed_decimal(
            cols as int,
        ),
        (ParseFault::IndivisibleLength { len, cols }).text(value) == "tensor data length "@
            + crate::decimal::decimal(len as nat) + " is not divisible by column count "@
            + crate::decimal::signed_decimal(cols as int),
        ParseFault::NumericDataExpected(s).text(value) == "expected numeric data for tensor '"@ + s
            + "'"@,
        ParseFault::StringDataExpected(s).text(value) == "expected string data for tensor '"@ + s
            + "'"@,
{
}

/// What the texts of bytes that are not UTF-8 tell: where the valid text ends, and how long the
/// invalid sequence is, where it does not just break off.
pub proof fn law_utf8_texts(valid_up_to: usize, len: usize)
    ensures
        (Utf8Fault { valid_up_to, error_len: Some(len) }).text() == "invalid utf-8 sequence of "@
            + crate::decimal::decimal(len as nat) + " bytes from index "@ + crate::decimal::decimal(
            valid_up_to as nat,
        ),
        (Utf8Fault { valid_up_to, error_len: None }).text()
            == "incomplete utf-8 byte sequence from index "@ + crate::decimal::decimal(
            valid_up_to as nat,
        ),
{
}

/// What the texts of rejected tensors of the flat-buffer front ends tell.
pub proof fn law_tensor_texts(
    value: Seq<char>,
    shape: Seq<i64>,
    json: crate::json::Json,
    len: usize,
    batch: usize,
    features: usize,
    f: Utf8Fault,
)
    ensures
        TensorFault::NotArray.text(value) == "expected JSON array for tensor data"@,
        TensorFault::ExpectedNumber(json).text(value) == "expected number in float tensor, got "@
            + value,
        TensorFault::ExpectedString(json).text(value) == "expected string in cat tensor, got "@
            + value,
        TensorFault::InvalidShape(shape).text(value) == "invalid 2-D shape "@ + shape_text(shape),
        TensorFault::NotTwoDimensional(shape).text(value)
            == "expected 2-D shape for batched features, got "@ + shape_text(shape),
        TensorFault::FloatRank(shape).text(value) == "float features must be 1-D or 2-D, got "@
            + shape_text(shape),
        TensorFault::CatRank.text(value) == "cat features must be 1-D or 2-D"@,
        features > 0 && len as int % features as int != 0 ==> (TensorFault::FloatLength {
            len,
            batch,
            features,
        }).text(value) == "flat length "@ + crate::decimal::decimal(len as nat)
            + " is not divisible by "@ + crate::decimal::decimal(features as nat) + " features"@,
        features > 0 && len as int % features as int == 0 ==> (TensorFault::FloatLength {
            len,
            batch,
            features,
        }).text(value) == "flat length "@ + crate::decimal::decimal(len as nat) + (" ≠ shape "@
            + crate::decimal::decimal(batch as nat) + "×"@) + crate::decimal::decimal(
            features as nat,
        ),
        (TensorFault::CatLength { len, batch, features }).text(value) == "cat data length "@
            + crate::decimal::decimal(len as nat) + (" ≠ shape "@ + crate::decimal::decimal(
            batch as nat,
        ) + "×"@) + crate::decimal::decimal(features as nat),
        (TensorFault::RaggedBytes { len, width: 8 }).text(value) == "raw double bytes length "@
            + crate::decimal::decimal(len as nat) + " is not a multiple of "@
            + crate::decimal::decimal(8),
        (TensorFault::RaggedBytes { len, width: 4 }).text(value) == "raw float bytes length "@
            + crate::decimal::decimal(len as nat) + " is not a multiple of "@
            + crate::decimal::decimal(4),
        (TensorFault::TruncatedPrefix { offset: len }).text(value)
            == "truncated length prefix at offset "@ + crate::decimal::decimal(len as nat),
        (TensorFault::TruncatedText { len, offset: batch }).text(value)
            == "string data truncated: expected "@ + crate::decimal::decimal(len as nat)
            + " bytes at offset "@ + crate::decimal::decimal(batch as nat),
        TensorFault::InvalidUtf8(f).text(value) == "invalid UTF-8 in cat feature: "@ + f.text(),
        ExtractFault::Tensor(TensorFault::InvalidUtf8(f)).text(value)
            == "invalid UTF-8 in cat feature: "@ + f.text(),
        ExtractFault::Tensor(TensorFault::ExpectedNumber(json)).text(value)
            == "expected number in float tensor, got "@ + value,
        ExtractFault::ZeroWidth.text(value) == value,
{
}

/// What the texts of missing and faulty features tell.
pub proof fn law_feature_texts(task: Seq<char>, i: nat, f: Utf8Fault, e: ExtractFault)
    ensures
        FeatureFault::NoFloatInput.text(task) == "no float_features input found"@,
        FeatureFault::RawMissing(i as int).text(task) == "raw_input_contents["@
            + crate::decimal::decimal(i) + "] missing"@,
        FeatureFault::EmptyFloats.text(task) == "float_features contents are empty"@,
        FeatureFault::NoFloatData.text(task)
            == "float_features has neither contents nor raw bytes"@,
        FeatureFault::NoCatData.text(task) == "cat_features has neither contents nor raw bytes"@,
        FeatureFault::InvalidUtf8(f).text(task) == "invalid UTF-8 in cat feature: "@ + f.text(),
        FeatureFault::Extract(e).text(task) == e.text(task),
{
}

/// What the texts of requests without predictions and of missing models tell.
pub proof fn law_failure_texts(name: Seq<char>, text: String)
    ensures
        InferError::Overload(crate::inference::batcher::OverloadError).text()
            == "server overloaded, try again later"@,
        InferError::ShutDown.text() == "batcher shut down"@,
        InferError::Dropped.text() == "batcher dropped response"@,
        InferError::Failed(text).text() == text@,
        model_not_found(name) == "model '"@ + name + "' not found"@,
        no_model(name) == "no model '"@ + name + "'"@,
        crate::model::registry::not_loaded_text(name) == "model '"@ + name + "' is not loaded"@,
{
}

/// What a client of the flat-buffer front ends reads: which model is missing, what is wrong with
/// the features, or the text that came with the failure.
pub proof fn law_flat_messages(
    h: &crate::http::HttpError,
    g: &crate::grpc::GrpcError,
    shown: &str,
    a: String,
    b: String,
)
    requires
        call_ensures(crate::http::HttpError::message, (h, shown), a),
        call_ensures(crate::grpc::GrpcError::message, (g, shown), b),
    ensures
        match h.reason {
            crate::http::Reason::ModelNotFound(name) => a@ == "model '"@ + name@ + "' not found"@,
            crate::http::Reason::Features(e) => a@ == e@.text(shown@),
            crate::http::Reason::Predict(text) => a@ == text@,
            crate::http::Reason::Task(text) => a@ == text@,
            crate::http::Reason::Reload(text) => a@ == text@,
        },
        match g.reason {
            crate::grpc::Reason::ModelNotFound(name) => b@ == "model '"@ + name@ + "' not found"@,
            crate::grpc::Reason::Features(e) => b@ == e@.text(shown@),
            crate::grpc::Reason::Predict(text) => b@ == text@,
            crate::grpc::Reason::Task(text) => b@ == text@,
        },
{
}

/// What a client of the batching server reads: which model is missing or not loaded, what is
/// wrong with a tensor, why there are no predictions, or the text that came with the failure.
pub proof fn law_server_messages(
    h: &crate::server::http::AppError,
    g: &crate::server::grpc::GrpcError,
    value: &str,
    a: String,
    b: String,
)
    requires
        call_ensures(crate::server::http::AppError::message, (h, value), a),
        call_ensures(crate::server::grpc::GrpcError::message, (g,), b),
    ensures
        match h.reason {
            crate::server::http::Reason::NoModel(name) => a@ == "no model '"@ + name@ + "'"@,
            crate::server::http::Reason::NotLoaded(name) => a@ == "model '"@ + name@
                + "' is not loaded"@,
            crate::server::http::Reason::Parse(e) => a@ == e@.text(value@),
            crate::server::http::Reason::Infer(e) => a@ == e.text(),
            crate::server::http::Reason::Load(text) => a@ == text@,
        },
        match g.reason {
            crate::server::grpc::Reason::NoModel(name) => b@ == "no model '"@ + name@ + "'"@,
            crate::server::grpc::Reason::NotLoaded(name) => b@ == "model '"@ + name@
                + "' is not loaded"@,
            crate::server::grpc::Reason::InvalidUtf8(f) => b@ == f.text(),
            crate::server::grpc::Reason::Parse(e) => b@ == e@.text(""@),
            crate::server::grpc::Reason::Infer(e) => b@ == e.text(),
        },
{
}

} // verus!
