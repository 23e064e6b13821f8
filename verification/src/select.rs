//! Finding the tensor of a request that holds the features of one kind.
use vstd::prelude::*;

use crate::inference::parse::parse_numeric_type;
use crate::text::same_text;

verus! {

/// A tensor with a name and a datatype.
pub trait Described {
    /// The name.
    spec fn spec_name(&self) -> Seq<char>;

    /// The datatype.
    spec fn spec_datatype(&self) -> Seq<char>;

    /// The name.
    fn name(&self) -> (s: &str)
        ensures
            s@ == self.spec_name(),
    ;

    /// The datatype.
    fn datatype(&self) -> (s: &str)
        ensures
            s@ == self.spec_datatype(),
    ;
}

/// A kind of datatypes.
#[derive(Clone, Copy, Debug, PartialEq, Eq, Structural)]
pub enum Kind {
    /// Every numeric datatype.
    Number,
    /// The floating-point datatypes.
    Float,
    /// `BYTES`.
    Bytes,
}

impl Kind {
    /// Whether a datatype is of this kind.
    pub open spec fn includes(self, datatype: Seq<char>) -> bool {
        match self {
            Kind::Number => crate::inference::parse::numeric_type(datatype) is Some,
            Kind::Float => datatype == "FP32"@ || datatype == "FP64"@,
            Kind::Bytes => datatype == "BYTES"@,
        }
    }

    fn accepts(self, datatype: &str) -> (r: bool)
        ensures
            r == self.includes(datatype@),
    {
        match self {
            Kind::Number => parse_numeric_type(datatype).is_some(),
            Kind::Float => same_text(datatype, "FP32") || same_text(datatype, "FP64"),
            Kind::Bytes => same_text(datatype, "BYTES"),
        }
    }
}

/// Whether `i` is the first tensor of this name.
pub open spec fn first_named<I: Described>(inputs: Seq<I>, name: Seq<char>, i: int) -> bool {
    &&& 0 <= i < inputs.len()
    &&& inputs[i].spec_name() == name
    &&& forall|j: int| 0 <= j < i ==> (#[trigger] inputs[j]).spec_name() != name
}

/// Whether `i` is the first tensor of this kind.
pub open spec fn first_of_kind<I: Described>(inputs: Seq<I>, kind: Kind, i: int) -> bool {
    &&& 0 <= i < inputs.len()
    &&& kind.includes(inputs[i].spec_datatype())
    &&& forall|j: int| 0 <= j < i ==> !kind.includes((#[trigger] inputs[j]).spec_datatype())
}

/// The tensor with the features: the first that has the name, or else the first of the
/// kind.
pub open spec fn selected<I: Described>(inputs: Seq<I>, name: Seq<char>, kind: Kind) -> Option<
    int,
> {
    if exists|i: int| first_named(inputs, name, i) {
        Some(choose|i: int| first_named(inputs, name, i))
    } else if exists|i: int| first_of_kind(inputs, kind, i) {
        Some(choose|i: int| first_of_kind(inputs, kind, i))
    } else {
        None
    }
}

proof fn lemma_first_named_unique<I: Described>(inputs: Seq<I>, name: Seq<char>, i: int, j: int)
    requires
        first_named(inputs, name, i),
        first_named(inputs, name, j),
    ensures
        i == j,
{
    if i < j {
        assert(inputs[i].spec_name() != name);
    }
    if j < i {
        assert(inputs[j].spec_name() != name);
    }
}

proof fn lemma_first_of_kind_unique<I: Described>(inputs: Seq<I>, kind: Kind, i: int, j: int)
    requires
        first_of_kind(inputs, kind, i),
        first_of_kind(inputs, kind, j),
    ensures
        i == j,
{
    if i < j {
        assert(!kind.includes(inputs[i].spec_datatype()));
    }
    if j < i {
        assert(!kind.includes(inputs[j].spec_datatype()));
    }
}

/// Finds the tensor with the features of one kind.
pub fn select<I: Described>(inputs: &[I], name: &str, kind: Kind) -> (r: Option<usize>)
    ensures
        match r {
            Some(i) => i < inputs@.len() && selected(inputs@, name@, kind) == Some(i as int),
            None => selected(inputs@, name@, kind) is None,
        },
{
    let mut i: usize = 0;
    while i < inputs.len()
        invariant
            i <= inputs@.len(),
            forall|j: int| 0 <= j < i ==> (#[trigger] inputs@[j]).spec_name() != name@,
        decreases inputs@.len() - i,
    {
        if same_text(inputs[i].name(), name) {
            proof {
                assert(first_named(inputs@, name@, i as int));
                let c = choose|k: int| first_named(inputs@, name@, k);
                lemma_first_named_unique(inputs@, name@, i as int, c);
            }
            return Some(i);
        }
        i = i + 1;
    }
    assert(forall|k: int| !first_named(inputs@, name@, k));
    let mut i: usize = 0;
    while i < inputs.len()
        invariant
            i <= inputs@.len(),
            forall|k: int| !first_named(inputs@, name@, k),
            forall|j: int|
                0 <= j < i ==> !kind.includes((#[trigger] inputs@[j]).spec_datatype()),
        decreases inputs@.len() - i,
    {
        if kind.accepts(inputs[i].datatype()) {
            proof {
                assert(first_of_kind(inputs@, kind, i as int));
                let c = choose|k: int| first_of_kind(inputs@, kind, k);
                lemma_first_of_kind_unique(inputs@, kind, i as int, c);
            }
            return Some(i);
        }
        i = i + 1;
    }
    assert(forall|k: int| !first_of_kind(inputs@, kind, k));
    None
}

/// The tensor with the features is the first that has the name, wherever it stands; where none
/// has it, it is the first whose datatype is of the kind; and where there is none of these
/// either, there is no such tensor.
pub proof fn law_selected_tensor<I: Described>(
    inputs: Seq<I>,
    name: Seq<char>,
    kind: Kind,
    i: int,
)
    ensures
        0 <= i < inputs.len() && inputs[i].spec_name() == name && (forall|j: int|
            0 <= j < i ==> (#[trigger] inputs[j]).spec_name() != name) ==> selected(
            inputs,
            name,
            kind,
        ) == Some(i),
        (forall|j: int| 0 <= j < inputs.len() ==> (#[trigger] inputs[j]).spec_name() != name) && 0
            <= i < inputs.len() && kind.includes(inputs[i].spec_datatype()) && (forall|j: int|
            0 <= j < i ==> !kind.includes((#[trigger] inputs[j]).spec_datatype())) ==> selected(
            inputs,
            name,
            kind,
        ) == Some(i),
        (forall|j: int|
            0 <= j < inputs.len() ==> (#[trigger] inputs[j]).spec_name() != name && !kind.includes(
                inputs[j].spec_datatype(),
            )) ==> selected(inputs, name, kind) is None,
        selected(inputs, name, kind) matches Some(k) ==> {
            &&& 0 <= k < inputs.len()
            &&& inputs[k].spec_name() == name || kind.includes(inputs[k].spec_datatype())
        },
{
    if first_named(inputs, name, i) {
        lemma_first_named_unique(inputs, name, i, choose|k: int| first_named(inputs, name, k));
    }
    if first_of_kind(inputs, kind, i) {
        lemma_first_of_kind_unique(inputs, kind, i, choose|k: int| first_of_kind(inputs, kind, k));
    }
}

/// Which datatypes are of which kind.
pub proof fn law_kinds(datatype: Seq<char>)
    ensures
        Kind::Bytes.includes(datatype) <==> datatype == "BYTES"@,
        Kind::Float.includes(datatype) <==> datatype == "FP32"@ || datatype == "FP64"@,
        Kind::Number.includes(datatype) <==> {
            ||| datatype == "FP32"@
            ||| datatype == "FP64"@
            ||| datatype == "INT32"@
            ||| datatype == "INT64"@
            ||| datatype == "UINT32"@
            ||| datatype == "UINT64"@
        },
{
}

} // verus!
