//! JSON values as they arrive in the `data` field of a request, and the flattening
//! of nested arrays.
use vstd::prelude::*;

use crate::float::{Fp32, Fp64};

verus! {

/// A JSON number: an integer that fits 64 bits, or a floating-point number.
#[derive(Clone, Copy, Debug, PartialEq, Eq, Structural)]
pub enum JsonNumber {
    PosInt(u64),
    NegInt(i64),
    Float(Fp64),
}

/// A JSON value.
#[derive(Debug, PartialEq, Eq)]
pub enum JsonValue {
    Null,
    Bool(bool),
    Number(JsonNumber),
    String(String),
    Array(Vec<JsonValue>),
    Object(Vec<(String, JsonValue)>),
}

/// A JSON value as mathematics sees it.
pub enum Json {
    Null,
    Bool(bool),
    Number(JsonNumber),
    String(Seq<char>),
    Array(Seq<Json>),
    Object(Seq<(Seq<char>, Json)>),
}

impl JsonValue {
    /// What the value is.
    pub open spec fn value(self) -> Json
        decreases self,
    {
        match self {
            JsonValue::Null => Json::Null,
            JsonValue::Bool(b) => Json::Bool(b),
            JsonValue::Number(n) => Json::Number(n),
            JsonValue::String(s) => Json::String(s@),
            JsonValue::Array(a) => Json::Array(
                Seq::new(
                    a@.len(),
                    |i: int|
                        if 0 <= i < a@.len() {
                            a@[i].value()
                        } else {
                            Json::Null
                        },
                ),
            ),
            JsonValue::Object(o) => Json::Object(
                Seq::new(
                    o@.len(),
                    |i: int|
                        if 0 <= i < o@.len() {
                            (o@[i].0@, o@[i].1.value())
                        } else {
                            (Seq::empty(), Json::Null)
                        },
                ),
            ),
        }
    }
}

impl View for JsonValue {
    type V = Json;

    open spec fn view(&self) -> Json {
        self.value()
    }
}

/// The values of an array's elements.
pub open spec fn elements(a: Seq<JsonValue>) -> Seq<Json> {
    a.map_values(|v: JsonValue| v@)
}

/// The value of an array is made of the values of its elements.
pub proof fn lemma_array_view(a: Vec<JsonValue>)
    ensures
        JsonValue::Array(a)@ == Json::Array(elements(a@)),
{
    let v = JsonValue::Array(a);
    assert(v@ == v.value());
    let s = v.value()->Array_0;
    assert(s.len() == a@.len());
    assert forall|i: int| 0 <= i < a@.len() implies s[i] == elements(a@)[i] by {
        assert(s[i] == a@[i].value());
    }
    assert(s =~= elements(a@));
}

impl Clone for JsonValue {
    fn clone(&self) -> (r: JsonValue)
        ensures
            r@ == self@,
        decreases self,
    {
        match self {
            JsonValue::Null => JsonValue::Null,
            JsonValue::Bool(b) => JsonValue::Bool(*b),
            JsonValue::Number(n) => JsonValue::Number(*n),
            JsonValue::String(s) => JsonValue::String(s.clone()),
            JsonValue::Array(a) => {
                let mut out: Vec<JsonValue> = Vec::new();
                let mut i: usize = 0;
                while i < a.len()
                    invariant
                        i <= a@.len(),
                        out@.len() == i,
                        *self == JsonValue::Array(*a),
                        forall|j: int| 0 <= j < i ==> (#[trigger] out@[j])@ == a@[j]@,
                    decreases a@.len() - i,
                {
                    proof {
                        assert(decreases_to!(self->Array_0 => self->Array_0@));
                        assert(decreases_to!(self->Array_0@ => self->Array_0@[i as int]));
                        assert(decreases_to!(*self => self->Array_0));
                    }
                    out.push(a[i].clone());
                    i = i + 1;
                }
                let r = JsonValue::Array(out);
                proof {
                    lemma_array_view(out);
                    lemma_array_view(*a);
                    assert(elements(out@) =~= elements(a@));
                }
                r
            },
            JsonValue::Object(o) => {
                let mut out: Vec<(String, JsonValue)> = Vec::new();
                let mut i: usize = 0;
                while i < o.len()
                    invariant
                        i <= o@.len(),
                        out@.len() == i,
                        *self == JsonValue::Object(*o),
                        forall|j: int|
                            0 <= j < i ==> (#[trigger] out@[j]).0@ == o@[j].0@ && out@[j].1@
                                == o@[j].1@,
                    decreases o@.len() - i,
                {
                    proof {
                        let pair = self->Object_0@[i as int];
                        assert(decreases_to!(self->Object_0 => self->Object_0@));
                        assert(decreases_to!(self->Object_0@ => self->Object_0@[i as int]));
                        assert(decreases_to!(pair => pair.1));
                        assert(decreases_to!(*self => self->Object_0));
                    }
                    out.push((o[i].0.clone(), o[i].1.clone()));
                    i = i + 1;
                }
                let r = JsonValue::Object(out);
                proof {
                    if let Json::Object(s) = r@ {
                        if let Json::Object(t) = self@ {
                            assert(s =~= t);
                        }
                    }
                }
                r
            },
        }
    }
}

/// Calls `serde_json::Number::as_f64` on the number that
/// `serde_json::Number::from_i128` makes of `n`. Every integer of 64 bits is such a
/// number, and its value is `n` rounded to the nearest binary64 number.
#[verifier::external_body]
fn integer_as_f64(n: i128) -> (r: Option<u64>)
    requires
        -0x8000_0000_0000_0000 <= n <= 0xffff_ffff_ffff_ffff,
    ensures
        r is Some,
        r matches Some(bits) ==> bits == crate::float::fp64_of_int(n as int),
{
    serde_json::Number::from_i128(n)?.as_f64().map(|v| v.to_bits())
}

impl JsonNumber {
    /// The number in binary64, as bits.
    pub open spec fn fp64_bits(self) -> int {
        match self {
            JsonNumber::PosInt(n) => crate::float::fp64_of_int(n as int),
            JsonNumber::NegInt(n) => crate::float::fp64_of_int(n as int),
            JsonNumber::Float(v) => v.bits as int,
        }
    }

    /// The number in binary32, by way of binary64.
    pub open spec fn fp32(self) -> Fp32 {
        Fp32 {
            bits: crate::float::fp32_of_fp64(Fp64 { bits: self.fp64_bits() as u64 }) as u32,
        }
    }

    /// The number in binary64.
    pub fn as_f64(self) -> (r: Fp64)
        ensures
            r.bits == self.fp64_bits(),
    {
        match self {
            JsonNumber::PosInt(n) => Fp64 { bits: integer_as_f64(n as i128).unwrap() },
            JsonNumber::NegInt(n) => Fp64 { bits: integer_as_f64(n as i128).unwrap() },
            JsonNumber::Float(v) => v,
        }
    }
}

/// The values in an array from left to right, with the elements of nested arrays in
/// place of the arrays.
pub open spec fn leaves(a: Seq<Json>) -> Seq<Json>
    decreases a,
{
    if a.len() == 0 {
        seq![]
    } else {
        let first = match a[0] {
            Json::Array(inner) => leaves(inner),
            v => seq![v],
        };
        first + leaves(a.subrange(1, a.len() as int))
    }
}

/// Whether every value is a number.
pub open spec fn all_numbers(s: Seq<Json>) -> bool {
    forall|i: int| 0 <= i < s.len() ==> #[trigger] s[i] is Number
}

/// Whether every value is a string.
pub open spec fn all_strings(s: Seq<Json>) -> bool {
    forall|i: int| 0 <= i < s.len() ==> #[trigger] s[i] is String
}

/// The first value that is not a number.
pub open spec fn first_other_than_number(s: Seq<Json>) -> Json
    decreases s.len(),
{
    if s.len() == 0 {
        Json::Null
    } else if !(s[0] is Number) {
        s[0]
    } else {
        first_other_than_number(s.drop_first())
    }
}

/// The first value that is not a string.
pub open spec fn first_other_than_string(s: Seq<Json>) -> Json
    decreases s.len(),
{
    if s.len() == 0 {
        Json::Null
    } else if !(s[0] is String) {
        s[0]
    } else {
        first_other_than_string(s.drop_first())
    }
}

/// Numbers in binary32.
pub open spec fn numbers(s: Seq<Json>) -> Seq<Fp32> {
    s.map_values(|v: Json| v->Number_0.fp32())
}

/// The characters of strings.
pub open spec fn strings(s: Seq<Json>) -> Seq<Seq<char>> {
    s.map_values(|v: Json| v->String_0)
}

/// The numbers in the leaves of an array, or the first leaf that is none.
pub open spec fn flat_numbers(a: Seq<Json>) -> Result<Seq<Fp32>, Json> {
    let s = leaves(a);
    if all_numbers(s) {
        Ok(numbers(s))
    } else {
        Err(first_other_than_number(s))
    }
}

/// The strings in the leaves of an array, or the first leaf that is none.
pub open spec fn flat_strings(a: Seq<Json>) -> Result<Seq<Seq<char>>, Json> {
    let s = leaves(a);
    if all_strings(s) {
        Ok(strings(s))
    } else {
        Err(first_other_than_string(s))
    }
}

proof fn lemma_leaves_concat(a: Seq<Json>, b: Seq<Json>)
    ensures
        leaves(a + b) == leaves(a) + leaves(b),
    decreases a.len(),
{
    if a.len() == 0 {
        assert(a + b =~= b);
        assert(leaves(a) + leaves(b) =~= leaves(b));
    } else {
        let rest = a.subrange(1, a.len() as int);
        lemma_leaves_concat(rest, b);
        assert((a + b).subrange(1, (a + b).len() as int) =~= rest + b);
        let first = match a[0] {
            Json::Array(inner) => leaves(inner),
            v => seq![v],
        };
        assert(first + (leaves(rest) + leaves(b)) =~= (first + leaves(rest)) + leaves(b));
    }
}

proof fn lemma_leaves_one(v: Json)
    ensures
        leaves(seq![v]) == (match v {
            Json::Array(inner) => leaves(inner),
            w => seq![w],
        }),
{
    let a = seq![v];
    let first = match v {
        Json::Array(inner) => leaves(inner),
        w => seq![w],
    };
    assert(a.subrange(1, 1) =~= Seq::<Json>::empty());
    assert(first + leaves(Seq::<Json>::empty()) =~= first);
}

proof fn lemma_leaves_step(a: Seq<JsonValue>, i: int)
    requires
        0 <= i < a.len(),
    ensures
        leaves(elements(a.take(i + 1))) == leaves(elements(a.take(i))) + leaves(seq![a[i]@]),
        leaves(elements(a)) == leaves(elements(a.take(i + 1))) + leaves(elements(a.skip(i + 1))),
{
    assert(elements(a.take(i + 1)) =~= elements(a.take(i)) + seq![a[i]@]);
    lemma_leaves_concat(elements(a.take(i)), seq![a[i]@]);
    assert(elements(a) =~= elements(a.take(i + 1)) + elements(a.skip(i + 1)));
    lemma_leaves_concat(elements(a.take(i + 1)), elements(a.skip(i + 1)));
}

proof fn lemma_first_other_than_number(a: Seq<Json>, b: Seq<Json>)
    requires
        all_numbers(a),
        !all_numbers(b),
    ensures
        !all_numbers(a + b),
        first_other_than_number(a + b) == first_other_than_number(b),
    decreases a.len(),
{
    let i = choose|i: int| 0 <= i < b.len() && !(#[trigger] b[i] is Number);
    assert((a + b)[a.len() + i] == b[i]);
    if a.len() == 0 {
        assert(a + b =~= b);
    } else {
        assert((a + b)[0] == a[0]);
        assert((a + b).drop_first() =~= a.drop_first() + b);
        lemma_first_other_than_number(a.drop_first(), b);
    }
}

proof fn lemma_first_other_than_string(a: Seq<Json>, b: Seq<Json>)
    requires
        all_strings(a),
        !all_strings(b),
    ensures
        !all_strings(a + b),
        first_other_than_string(a + b) == first_other_than_string(b),
    decreases a.len(),
{
    let i = choose|i: int| 0 <= i < b.len() && !(#[trigger] b[i] is String);
    assert((a + b)[a.len() + i] == b[i]);
    if a.len() == 0 {
        assert(a + b =~= b);
    } else {
        assert((a + b)[0] == a[0]);
        assert((a + b).drop_first() =~= a.drop_first() + b);
        lemma_first_other_than_string(a.drop_first(), b);
    }
}

/// What follows a leaf that is not a number does not matter.
proof fn lemma_number_fault_stays(a: Seq<Json>, b: Seq<Json>)
    requires
        !all_numbers(a),
    ensures
        !all_numbers(a + b),
        first_other_than_number(a + b) == first_other_than_number(a),
    decreases a.len(),
{
    let i = choose|i: int| 0 <= i < a.len() && !(#[trigger] a[i] is Number);
    assert((a + b)[i] == a[i]);
    assert((a + b)[0] == a[0]);
    if a[0] is Number {
        assert(a.drop_first()[i - 1] == a[i]);
        assert((a + b).drop_first() =~= a.drop_first() + b);
        lemma_number_fault_stays(a.drop_first(), b);
    }
}

/// What follows a leaf that is not a string does not matter.
proof fn lemma_string_fault_stays(a: Seq<Json>, b: Seq<Json>)
    requires
        !all_strings(a),
    ensures
        !all_strings(a + b),
        first_other_than_string(a + b) == first_other_than_string(a),
    decreases a.len(),
{
    let i = choose|i: int| 0 <= i < a.len() && !(#[trigger] a[i] is String);
    assert((a + b)[i] == a[i]);
    assert((a + b)[0] == a[0]);
    if a[0] is String {
        assert(a.drop_first()[i - 1] == a[i]);
        assert((a + b).drop_first() =~= a.drop_first() + b);
        lemma_string_fault_stays(a.drop_first(), b);
    }
}

/// Appends the numbers in the leaves of `a` to `out`.
fn collect_numbers(a: &Vec<JsonValue>, out: &mut Vec<Fp32>) -> (r: Result<(), JsonValue>)
    ensures
        match r {
            Ok(()) => all_numbers(leaves(elements(a@))) && final(out)@ == old(out)@ + numbers(
                leaves(elements(a@)),
            ),
            Err(v) => !all_numbers(leaves(elements(a@))) && v@ == first_other_than_number(
                leaves(elements(a@)),
            ),
        },
    decreases a,
{
    let mut i: usize = 0;
    let ghost before = out@;
    assert(numbers(leaves(elements(a@.take(0)))) =~= Seq::<Fp32>::empty());
    while i < a.len()
        invariant
            i <= a@.len(),
            all_numbers(leaves(elements(a@.take(i as int)))),
            out@ =~= before + numbers(leaves(elements(a@.take(i as int)))),
        decreases a@.len() - i,
    {
        let ghost done = leaves(elements(a@.take(i as int)));
        let ghost step = leaves(seq![a@[i as int]@]);
        let ghost later = leaves(elements(a@.skip(i + 1)));
        proof {
            lemma_leaves_step(a@, i as int);
            lemma_leaves_one(a@[i as int]@);
        }
        match &a[i] {
            JsonValue::Array(inner) => {
                proof {
                    lemma_array_view(*inner);
                    assert(decreases_to!(a => a@));
                    assert(decreases_to!(a@ => a@[i as int]));
                    assert(decreases_to!(a@[i as int] => a@[i as int]->Array_0));
                }
                let r = collect_numbers(inner, out);
                if let Err(v) = r {
                    proof {
                        lemma_first_other_than_number(done, step);
                        lemma_number_fault_stays(done + step, later);
                    }
                    return Err(v);
                }
            },
            JsonValue::Number(n) => {
                let v = Fp32::from_fp64(n.as_f64());
                out.push(v);
                assert(v == n.fp32());
                assert(numbers(step) =~= seq![v]);
            },
            other => {
                proof {
                    assert(step[0] == other@);
                    assert(!all_numbers(step));
                    lemma_first_other_than_number(done, step);
                    lemma_number_fault_stays(done + step, later);
                }
                return Err(other.clone());
            },
        }
        proof {
            assert(numbers(done + step) =~= numbers(done) + numbers(step));
            assert forall|j: int| 0 <= j < (done + step).len() implies #[trigger] (done
                + step)[j] is Number by {
                if j >= done.len() {
                    assert((done + step)[j] == step[j - done.len()]);
                }
            }
        }
        i = i + 1;
    }
    assert(a@.take(a@.len() as int) =~= a@);
    Ok(())
}

/// Flattens an array of numbers, nested or not.
pub fn flatten_numbers(a: &Vec<JsonValue>) -> (r: Result<Vec<Fp32>, JsonValue>)
    ensures
        match r {
            Ok(v) => flat_numbers(elements(a@)) == Ok::<Seq<Fp32>, Json>(v@),
            Err(v) => flat_numbers(elements(a@)) == Err::<Seq<Fp32>, Json>(v@),
        },
{
    let mut out: Vec<Fp32> = Vec::new();
    match collect_numbers(a, &mut out) {
        Ok(()) => {
            assert(out@ =~= numbers(leaves(elements(a@))));
            Ok(out)
        },
        Err(v) => Err(v),
    }
}

/// Appends the strings in the leaves of `a` to `out`.
fn collect_strings(a: &Vec<JsonValue>, out: &mut Vec<String>) -> (r: Result<(), JsonValue>)
    ensures
        match r {
            Ok(()) => all_strings(leaves(elements(a@))) && crate::frames::texts(final(out)@)
                == crate::frames::texts(old(out)@) + strings(leaves(elements(a@))),
            Err(v) => !all_strings(leaves(elements(a@))) && v@ == first_other_than_string(
                leaves(elements(a@)),
            ),
        },
    decreases a,
{
    let mut i: usize = 0;
    let ghost before = crate::frames::texts(out@);
    assert(strings(leaves(elements(a@.take(0)))) =~= Seq::<Seq<char>>::empty());
    while i < a.len()
        invariant
            i <= a@.len(),
            all_strings(leaves(elements(a@.take(i as int)))),
            crate::frames::texts(out@) =~= before + strings(
                leaves(elements(a@.take(i as int))),
            ),
        decreases a@.len() - i,
    {
        let ghost done = leaves(elements(a@.take(i as int)));
        let ghost step = leaves(seq![a@[i as int]@]);
        let ghost later = leaves(elements(a@.skip(i + 1)));
        proof {
            lemma_leaves_step(a@, i as int);
            lemma_leaves_one(a@[i as int]@);
        }
        match &a[i] {
            JsonValue::Array(inner) => {
                proof {
                    lemma_array_view(*inner);
                    assert(decreases_to!(a => a@));
                    assert(decreases_to!(a@ => a@[i as int]));
                    assert(decreases_to!(a@[i as int] => a@[i as int]->Array_0));
                }
                let r = collect_strings(inner, out);
                if let Err(v) = r {
                    proof {
                        lemma_first_other_than_string(done, step);
                        lemma_string_fault_stays(done + step, later);
                    }
                    return Err(v);
                }
            },
            JsonValue::String(s) => {
                let ghost sofar = crate::frames::texts(out@);
                out.push(s.clone());
                assert(crate::frames::texts(out@) =~= sofar.push(s@));
                assert(strings(step) =~= seq![s@]);
            },
            other => {
                proof {
                    assert(step[0] == other@);
                    assert(!all_strings(step));
                    lemma_first_other_than_string(done, step);
                    lemma_string_fault_stays(done + step, later);
                }
                return Err(other.clone());
            },
        }
        proof {
            assert(strings(done + step) =~= strings(done) + strings(step));
            assert forall|j: int| 0 <= j < (done + step).len() implies #[trigger] (done
                + step)[j] is String by {
                if j >= done.len() {
                    assert((done + step)[j] == step[j - done.len()]);
                }
            }
        }
        i = i + 1;
    }
    assert(a@.take(a@.len() as int) =~= a@);
    Ok(())
}

/// Flattens an array of strings, nested or not.
pub fn flatten_texts(a: &Vec<JsonValue>) -> (r: Result<Vec<String>, JsonValue>)
    ensures
        match r {
            Ok(v) => flat_strings(elements(a@)) == Ok::<Seq<Seq<char>>, Json>(
                crate::frames::texts(v@),
            ),
            Err(v) => flat_strings(elements(a@)) == Err::<Seq<Seq<char>>, Json>(v@),
        },
{
    let mut out: Vec<String> = Vec::new();
    match collect_strings(a, &mut out) {
        Ok(()) => {
            assert(crate::frames::texts(out@) =~= strings(leaves(elements(a@))));
            Ok(out)
        },
        Err(v) => Err(v),
    }
}

/// An array without nested arrays is its own sequence of leaves.
pub proof fn law_flat_array_is_its_leaves(a: Seq<Json>)
    requires
        forall|i: int| 0 <= i < a.len() ==> !(#[trigger] a[i] is Array),
    ensures
        leaves(a) == a,
    decreases a.len(),
{
    if a.len() > 0 {
        let rest = a.subrange(1, a.len() as int);
        assert forall|i: int| 0 <= i < rest.len() implies !(#[trigger] rest[i] is Array) by {
            assert(rest[i] == a[i + 1]);
        }
        law_flat_array_is_its_leaves(rest);
        assert(seq![a[0]] + rest =~= a);
        assert(!(a[0] is Array));
    } else {
        assert(leaves(a) =~= a);
    }
}

/// Nesting does not matter: where a run of elements stands in an array of its own, as
/// in `[[1, 2], [3, 4]]` instead of `[1, 2, 3, 4]`, the array flattens to the same data
/// or to the same fault.
pub proof fn law_nesting_is_irrelevant(a: Seq<Json>, b: Seq<Json>, c: Seq<Json>)
    ensures
        leaves(a + seq![Json::Array(b)] + c) == leaves(a + b + c),
        flat_numbers(a + seq![Json::Array(b)] + c) == flat_numbers(a + b + c),
        flat_strings(a + seq![Json::Array(b)] + c) == flat_strings(a + b + c),
{
    lemma_leaves_concat(a + seq![Json::Array(b)], c);
    lemma_leaves_concat(a, seq![Json::Array(b)]);
    lemma_leaves_one(Json::Array(b));
    lemma_leaves_concat(a + b, c);
    lemma_leaves_concat(a, b);
}

/// The values of a nested array are those of the array in its place, any other value stands
/// for itself, and the values of two runs of elements follow one another.
pub proof fn law_leaves_come_in_order(a: Seq<Json>, b: Seq<Json>, v: Json)
    ensures
        leaves(Seq::<Json>::empty()).len() == 0,
        leaves(seq![Json::Array(a)]) == leaves(a),
        !(v is Array) ==> leaves(seq![v]) == seq![v],
        leaves(a + b) == leaves(a) + leaves(b),
{
    lemma_leaves_one(v);
    lemma_leaves_one(Json::Array(a));
    lemma_leaves_concat(a, b);
}

proof fn lemma_first_other(s: Seq<Json>, k: int)
    requires
        0 <= k < s.len(),
    ensures
        !(s[k] is Number) && (forall|i: int| 0 <= i < k ==> #[trigger] s[i] is Number)
            ==> first_other_than_number(s) == s[k],
        !(s[k] is String) && (forall|i: int| 0 <= i < k ==> #[trigger] s[i] is String)
            ==> first_other_than_string(s) == s[k],
    decreases s.len(),
{
    if k > 0 {
        let rest = s.drop_first();
        lemma_first_other(rest, k - 1);
        assert forall|i: int| 0 <= i < rest.len() implies rest[i] == s[i + 1] by {}
        assert(rest[k - 1] == s[k]);
    }
}

/// An array is read as numbers where all its values are numbers: then they come out one by
/// one, in order, each rounded by itself. Otherwise the first value that is none is named.
pub proof fn law_numbers_are_read_one_by_one(a: Seq<Json>, k: int)
    ensures
        flat_numbers(a) is Ok <==> (forall|i: int|
            0 <= i < leaves(a).len() ==> #[trigger] leaves(a)[i] is Number),
        flat_numbers(a) matches Ok(v) ==> {
            &&& v.len() == leaves(a).len()
            &&& forall|i: int|
                0 <= i < v.len() ==> (#[trigger] v[i]) == leaves(a)[i]->Number_0.fp32()
        },
        0 <= k < leaves(a).len() && !(leaves(a)[k] is Number) && (forall|i: int|
            0 <= i < k ==> #[trigger] leaves(a)[i] is Number) ==> flat_numbers(a) == Err::<
            Seq<Fp32>,
            Json,
        >(leaves(a)[k]),
{
    if 0 <= k < leaves(a).len() {
        lemma_first_other(leaves(a), k);
    }
}

/// An array is read as strings where all its values are strings: then they come out one by
/// one, in order. Otherwise the first value that is none is named.
pub proof fn law_strings_are_read_one_by_one(a: Seq<Json>, k: int)
    ensures
        flat_strings(a) is Ok <==> (forall|i: int|
            0 <= i < leaves(a).len() ==> #[trigger] leaves(a)[i] is String),
        flat_strings(a) matches Ok(v) ==> {
            &&& v.len() == leaves(a).len()
            &&& forall|i: int|
                0 <= i < v.len() ==> (#[trigger] v[i]) == leaves(a)[i]->String_0
        },
        0 <= k < leaves(a).len() && !(leaves(a)[k] is String) && (forall|i: int|
            0 <= i < k ==> #[trigger] leaves(a)[i] is String) ==> flat_strings(a) == Err::<
            Seq<Seq<char>>,
            Json,
        >(leaves(a)[k]),
{
    if 0 <= k < leaves(a).len() {
        lemma_first_other(leaves(a), k);
    }
}

/// A value is what it holds: scalars as they are, strings by their characters, arrays and
/// objects element by element.
pub proof fn law_value_is_what_it_holds(
    b: bool,
    n: JsonNumber,
    s: String,
    a: Vec<JsonValue>,
    o: Vec<(String, JsonValue)>,
)
    ensures
        JsonValue::Null@ == Json::Null,
        JsonValue::Bool(b)@ == Json::Bool(b),
        JsonValue::Number(n)@ == Json::Number(n),
        JsonValue::String(s)@ == Json::String(s@),
        JsonValue::Array(a)@ matches Json::Array(v) && v.len() == a@.len() && forall|i: int|
            0 <= i < v.len() ==> (#[trigger] v[i]) == a@[i]@,
        JsonValue::Object(o)@ matches Json::Object(v) && v.len() == o@.len() && forall|i: int|
            0 <= i < v.len() ==> (#[trigger] v[i]).0 == o@[i].0@ && v[i].1 == o@[i].1@,
{
    lemma_array_view(a);
}

/// An integer is taken by its value, whichever way it is held, and a negative one differs from
/// its opposite by the sign alone; a floating-point number is taken as it is. Each is then
/// rounded to binary32.
pub proof fn law_numbers_are_taken_by_value(n: u64, m: i64, v: Fp64)
    ensures
        JsonNumber::PosInt(n).fp64_bits() == crate::float::fp64_of_int(n as int),
        JsonNumber::NegInt(m).fp64_bits() == crate::float::fp64_of_int(m as int),
        m == n ==> JsonNumber::NegInt(m).fp32() == JsonNumber::PosInt(n).fp32(),
        m < 0 && m == -n ==> JsonNumber::NegInt(m).fp64_bits() == 0x8000_0000_0000_0000
            + JsonNumber::PosInt(n).fp64_bits(),
        JsonNumber::Float(v).fp64_bits() == v.bits,
        JsonNumber::Float(v).fp32().bits == crate::float::fp32_of_fp64(v),
{
    crate::float::law_integers_keep_their_sign(n as nat);
    crate::float::law_binary64_in_fields(v);
}

} // verus!
