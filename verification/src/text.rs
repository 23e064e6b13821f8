//! Text, its UTF-8 encoding and the little-endian numbers around it.
use vstd::prelude::*;

verus! {

/// What is wrong with bytes that are not UTF-8: how many of them form valid text,
/// and how long the invalid sequence after them is. There is no such length where
/// the input ends in the middle of a character.
#[derive(Clone, Copy, Debug, PartialEq, Eq, Structural)]
pub struct Utf8Fault {
    pub valid_up_to: usize,
    pub error_len: Option<usize>,
}

/// Whether the first `k` bytes are the longest prefix that is valid UTF-8.
pub open spec fn longest_valid_prefix(bytes: Seq<u8>, k: int) -> bool {
    &&& 0 <= k <= bytes.len()
    &&& vstd::utf8::valid_utf8(bytes.take(k))
    &&& forall|j: int|
        k < j <= bytes.len() ==> !vstd::utf8::valid_utf8(#[trigger] bytes.take(j))
}

/// The length of the longest prefix that is valid UTF-8.
pub open spec fn valid_prefix_len(bytes: Seq<u8>) -> int {
    choose|k: int| longest_valid_prefix(bytes, k)
}

/// The length of the invalid sequence that `String::from_utf8` reports for `bytes`.
pub uninterp spec fn utf8_error_len(bytes: Seq<u8>) -> Option<usize>;

/// The fault of bytes that are not UTF-8.
pub open spec fn utf8_fault(bytes: Seq<u8>) -> Utf8Fault {
    Utf8Fault {
        valid_up_to: valid_prefix_len(bytes) as usize,
        error_len: utf8_error_len(bytes),
    }
}

proof fn lemma_valid_prefix_len(bytes: Seq<u8>, k: int)
    requires
        longest_valid_prefix(bytes, k),
    ensures
        valid_prefix_len(bytes) == k,
{
    let c = valid_prefix_len(bytes);
    assert(longest_valid_prefix(bytes, c));
    if c < k {
        assert(!vstd::utf8::valid_utf8(bytes.take(k)));
    }
    if k < c {
        assert(!vstd::utf8::valid_utf8(bytes.take(c)));
    }
}

/// Calls `String::from_utf8`. It succeeds exactly on valid UTF-8, with the text that
/// the bytes encode. Otherwise its error tells the largest index up to which the
/// bytes are valid, and the length of the sequence that is not; that length is only
/// named here.
#[verifier::external_body]
fn string_from_utf8(bytes: Vec<u8>) -> (r: Result<String, Utf8Fault>)
    ensures
        r is Ok <==> vstd::utf8::valid_utf8(bytes@),
        r matches Ok(s) ==> s@ == vstd::utf8::decode_utf8(bytes@),
        r matches Err(f) ==> longest_valid_prefix(bytes@, f.valid_up_to as int),
        r matches Err(f) ==> f.error_len == utf8_error_len(bytes@),
{
    String::from_utf8(bytes).map_err(|e| {
        let u = e.utf8_error();
        Utf8Fault { valid_up_to: u.valid_up_to(), error_len: u.error_len() }
    })
}

/// The text that `bytes` encode, or what is wrong with them.
pub open spec fn decoded(bytes: Seq<u8>) -> Result<Seq<char>, Utf8Fault> {
    if vstd::utf8::valid_utf8(bytes) {
        Ok(vstd::utf8::decode_utf8(bytes))
    } else {
        Err(utf8_fault(bytes))
    }
}

/// Decodes UTF-8.
pub fn decode_text(bytes: Vec<u8>) -> (r: Result<String, Utf8Fault>)
    ensures
        match r {
            Ok(s) => decoded(bytes@) == Ok::<Seq<char>, Utf8Fault>(s@),
            Err(f) => decoded(bytes@) == Err::<Seq<char>, Utf8Fault>(f),
        },
{
    let ghost b = bytes@;
    let r = string_from_utf8(bytes);
    proof {
        if let Err(f) = r {
            lemma_valid_prefix_len(b, f.valid_up_to as int);
        }
    }
    r
}

/// The texts that the items encode, or what is wrong with the first that encodes none.
pub open spec fn decoded_all(items: Seq<Vec<u8>>) -> Result<Seq<Seq<char>>, Utf8Fault>
    decreases items.len(),
{
    if items.len() == 0 {
        Ok(seq![])
    } else {
        match decoded_all(items.drop_last()) {
            Ok(front) => match decoded(items.last()@) {
                Ok(s) => Ok(front.push(s)),
                Err(f) => Err(f),
            },
            Err(f) => Err(f),
        }
    }
}

proof fn lemma_first_fault_stays(items: Seq<Vec<u8>>, k: int)
    requires
        0 <= k <= items.len(),
        decoded_all(items.take(k)) is Err,
    ensures
        decoded_all(items) == decoded_all(items.take(k)),
    decreases items.len(),
{
    if k == items.len() {
        assert(items.take(k) =~= items);
    } else {
        assert(items.drop_last().take(k) =~= items.take(k));
        lemma_first_fault_stays(items.drop_last(), k);
    }
}

/// Decodes each item as UTF-8.
pub fn decode_texts(items: &Vec<Vec<u8>>) -> (r: Result<Vec<String>, Utf8Fault>)
    ensures
        match r {
            Ok(v) => decoded_all(items@) == Ok::<Seq<Seq<char>>, Utf8Fault>(
                crate::frames::texts(v@),
            ),
            Err(f) => decoded_all(items@) == Err::<Seq<Seq<char>>, Utf8Fault>(f),
        },
{
    let mut out: Vec<String> = Vec::new();
    let n: usize = items.len();
    let mut i: usize = 0;
    assert(crate::frames::texts(out@) =~= seq![]);
    while i < n
        invariant
            n == items@.len(),
            i <= n,
            decoded_all(items@.take(i as int)) == Ok::<Seq<Seq<char>>, Utf8Fault>(
                crate::frames::texts(out@),
            ),
        decreases n - i,
    {
        let ghost sofar = crate::frames::texts(out@);
        assert(items@.take(i + 1).drop_last() =~= items@.take(i as int));
        match decode_text(vstd::slice::slice_to_vec(&items[i])) {
            Ok(s) => {
                out.push(s);
                assert(crate::frames::texts(out@) =~= sofar.push(s@));
            },
            Err(f) => {
                proof {
                    lemma_first_fault_stays(items@, i + 1);
                }
                return Err(f);
            },
        }
        i = i + 1;
    }
    assert(items@.take(i as int) =~= items@);
    Ok(out)
}

/// Whether two texts are the same.
pub fn same_text(a: &str, b: &str) -> (r: bool)
    ensures
        r == (a@ == b@),
{
    broadcast use vstd::utf8::encode_utf8_decode_utf8;

    let x = a.as_bytes();
    let y = b.as_bytes();
    assert(vstd::utf8::decode_utf8(x@) == a@);
    assert(vstd::utf8::decode_utf8(y@) == b@);
    if x.len() != y.len() {
        return false;
    }
    let mut i: usize = 0;
    while i < x.len()
        invariant
            i <= x@.len(),
            x@.len() == y@.len(),
            forall|j: int| 0 <= j < i ==> x@[j] == y@[j],
            x@ == vstd::utf8::encode_utf8(a@),
            y@ == vstd::utf8::encode_utf8(b@),
        decreases x@.len() - i,
    {
        if x[i] != y[i] {
            return false;
        }
        i = i + 1;
    }
    assert(x@ =~= y@);
    true
}

/// The number that `bytes` spell with the least significant byte first.
pub open spec fn little_endian(bytes: Seq<u8>) -> nat
    decreases bytes.len(),
{
    if bytes.len() == 0 {
        0
    } else {
        bytes[0] as nat + 256 * little_endian(bytes.drop_first())
    }
}

/// The number that `bytes` spell as a two's complement integer.
pub open spec fn little_endian_signed(bytes: Seq<u8>) -> int {
    let n = little_endian(bytes);
    let half = vstd::arithmetic::power2::pow2((8 * bytes.len() - 1) as nat);
    if n < half {
        n as int
    } else {
        n - 2 * half
    }
}

/// A number in `width` bytes, the least significant byte first.
pub open spec fn number_bytes(n: nat, width: nat) -> Seq<u8>
    decreases width,
{
    if width == 0 {
        seq![]
    } else {
        seq![(n % 256) as u8] + number_bytes(n / 256, (width - 1) as nat)
    }
}

/// A number that fits its bytes is read back from them.
pub proof fn law_number_reads_back(n: nat, width: nat)
    requires
        n < vstd::arithmetic::power2::pow2(8 * width),
    ensures
        number_bytes(n, width).len() == width,
        little_endian(number_bytes(n, width)) == n,
    decreases width,
{
    if width == 0 {
        vstd::arithmetic::power2::lemma2_to64();
    } else {
        let w = (width - 1) as nat;
        vstd::arithmetic::power2::lemma2_to64();
        vstd::arithmetic::power2::lemma_pow2_adds(8, 8 * w);
        law_number_reads_back(n / 256, w);
        let rest = number_bytes(n / 256, w);
        assert(number_bytes(n, width).drop_first() =~= rest);
    }
}

/// Reads four little-endian bytes.
pub fn read_u32(bytes: &[u8]) -> (n: u32)
    requires
        bytes@.len() == 4,
    ensures
        n == little_endian(bytes@),
{
    proof {
        reveal_with_fuel(little_endian, 5);
        let b = bytes@;
        assert(b.drop_first().drop_first().drop_first().drop_first().len() == 0);
    }
    bytes[0] as u32 + 256 * (bytes[1] as u32 + 256 * (bytes[2] as u32 + 256 * (bytes[3] as u32)))
}

/// Reads eight little-endian bytes.
pub fn read_u64(bytes: &[u8]) -> (n: u64)
    requires
        bytes@.len() == 8,
    ensures
        n == little_endian(bytes@),
{
    let low: u64 = bytes[0] as u64 + 256 * (bytes[1] as u64 + 256 * (bytes[2] as u64 + 256 * (
    bytes[3] as u64)));
    let high: u64 = bytes[4] as u64 + 256 * (bytes[5] as u64 + 256 * (bytes[6] as u64 + 256 * (
    bytes[7] as u64)));
    proof {
        reveal_with_fuel(little_endian, 9);
    }
    low + 0x1_0000_0000 * high
}

/// Reads four little-endian bytes of a signed number.
pub fn read_i32(bytes: &[u8]) -> (n: i32)
    requires
        bytes@.len() == 4,
    ensures
        n == little_endian_signed(bytes@),
{
    let u: u32 = read_u32(bytes);
    proof {
        vstd::arithmetic::power2::lemma2_to64();
    }
    if u < 0x8000_0000 {
        u as i32
    } else {
        (u as i64 - 0x1_0000_0000) as i32
    }
}

/// Reads eight little-endian bytes of a signed number.
pub fn read_i64(bytes: &[u8]) -> (n: i64)
    requires
        bytes@.len() == 8,
    ensures
        n == little_endian_signed(bytes@),
{
    let u: u64 = read_u64(bytes);
    proof {
        vstd::arithmetic::power2::lemma2_to64_rest();
    }
    if u < 0x8000_0000_0000_0000 {
        u as i64
    } else {
        (u as i128 - 0x1_0000_0000_0000_0000) as i64
    }
}

/// The first byte of a number counts once, and what follows it 256 times.
pub proof fn law_first_byte_is_least_significant(b: u8, rest: Seq<u8>)
    ensures
        little_endian(Seq::<u8>::empty()) == 0,
        little_endian(seq![b] + rest) == b + 256 * little_endian(rest),
{
    assert((seq![b] + rest).drop_first() =~= rest);
}

/// Text that is encoded in UTF-8 is read back, and what is read encodes to the bytes that it
/// was read from.
pub proof fn law_text_reads_back(s: Seq<char>, bytes: Seq<u8>)
    ensures
        decoded(vstd::utf8::encode_utf8(s)) == Ok::<Seq<char>, Utf8Fault>(s),
        decoded(bytes) matches Ok(t) ==> vstd::utf8::encode_utf8(t) == bytes,
        decoded(bytes) is Err ==> vstd::utf8::encode_utf8(s) != bytes,
{
    vstd::utf8::encode_utf8_valid_utf8(s);
    vstd::utf8::encode_utf8_decode_utf8(s);
    if decoded(bytes) is Ok {
        vstd::utf8::decode_utf8_encode_utf8(bytes);
    }
}

proof fn lemma_longest_valid_prefix_exists(bytes: Seq<u8>, n: int)
    requires
        0 <= n <= bytes.len(),
        forall|j: int| n < j <= bytes.len() ==> !vstd::utf8::valid_utf8(#[trigger] bytes.take(j)),
    ensures
        exists|k: int| longest_valid_prefix(bytes, k),
    decreases n,
{
    if vstd::utf8::valid_utf8(bytes.take(n)) {
        assert(longest_valid_prefix(bytes, n));
    } else {
        if n == 0 {
            assert(bytes.take(0) =~= Seq::<u8>::empty());
        }
        lemma_longest_valid_prefix_exists(bytes, n - 1);
    }
}

/// Bytes that are not UTF-8 are valid up to the place that the fault names, and no longer
/// prefix of them is.
pub proof fn law_fault_names_the_valid_prefix(bytes: Seq<u8>)
    requires
        bytes.len() <= usize::MAX,
    ensures
        decoded(bytes) matches Err(f) ==> {
            &&& f.valid_up_to < bytes.len()
            &&& vstd::utf8::valid_utf8(bytes.take(f.valid_up_to as int))
            &&& forall|j: int|
                f.valid_up_to < j <= bytes.len() ==> !vstd::utf8::valid_utf8(
                    #[trigger] bytes.take(j),
                )
            &&& f.error_len == utf8_error_len(bytes)
        },
{
    if decoded(bytes) is Err {
        assert(bytes.take(bytes.len() as int) =~= bytes);
        lemma_longest_valid_prefix_exists(bytes, bytes.len() as int);
        assert(longest_valid_prefix(bytes, valid_prefix_len(bytes)));
    }
}

/// Each item is decoded for itself, and they stay in order. Where one is not UTF-8, the fault
/// is that of the first such item.
pub proof fn law_items_are_decoded_one_by_one(items: Seq<Vec<u8>>, k: int)
    ensures
        decoded_all(items) matches Ok(v) ==> {
            &&& v.len() == items.len()
            &&& forall|i: int|
                0 <= i < items.len() ==> decoded((#[trigger] items[i])@) == Ok::<
                    Seq<char>,
                    Utf8Fault,
                >(v[i])
        },
        0 <= k < items.len() && decoded(items[k]@) is Err && (forall|i: int|
            0 <= i < k ==> decoded((#[trigger] items[i])@) is Ok) ==> decoded_all(items) == Err::<
            Seq<Seq<char>>,
            Utf8Fault,
        >(decoded(items[k]@)->Err_0),
        (forall|i: int| 0 <= i < items.len() ==> decoded((#[trigger] items[i])@) is Ok)
            ==> decoded_all(items) is Ok,
    decreases items.len(),
{
    if items.len() > 0 {
        let front = items.drop_last();
        law_items_are_decoded_one_by_one(front, k);
        assert forall|i: int| 0 <= i < front.len() implies front[i] == items[i] by {}
        assert(items.last() == items[items.len() - 1]);
    }
}

} // verus!
