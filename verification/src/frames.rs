//! The raw encoding of text tensors: each element is a four-byte little-endian
//! length, followed by that many bytes of UTF-8.
use vstd::prelude::*;

use crate::text::{decode_text, read_u32, Utf8Fault};

verus! {

/// How a run of length-prefixed elements ends.
#[derive(Clone, Copy, Debug, PartialEq, Eq, Structural)]
pub enum FrameEnd {
    /// Right behind the last element.
    Clean,
    /// In the middle of the length that starts at `offset`.
    ShortPrefix { offset: usize },
    /// Before the `len` bytes that should start at `offset` are complete.
    ShortPayload { len: usize, offset: usize },
    /// At an element that is not UTF-8.
    BadText { fault: Utf8Fault },
}

/// The elements that stand in `bytes` from `at` on, up to the first fault, and how
/// they end.
pub open spec fn scan(bytes: Seq<u8>, at: int) -> (Seq<Seq<char>>, FrameEnd)
    decreases bytes.len() - at,
{
    if at < 0 || at >= bytes.len() {
        (seq![], FrameEnd::Clean)
    } else if at + 4 > bytes.len() {
        (seq![], FrameEnd::ShortPrefix { offset: at as usize })
    } else {
        let len = crate::text::little_endian(bytes.subrange(at, at + 4));
        let end = at + 4 + len;
        if end > bytes.len() {
            (seq![], FrameEnd::ShortPayload { len: len as usize, offset: (at + 4) as usize })
        } else {
            match crate::text::decoded(bytes.subrange(at + 4, end)) {
                Err(fault) => (seq![], FrameEnd::BadText { fault }),
                Ok(s) => {
                    let (rest, stop) = scan(bytes, end);
                    (seq![s] + rest, stop)
                },
            }
        }
    }
}

/// The characters of each string.
pub open spec fn texts(v: Seq<String>) -> Seq<Seq<char>> {
    v.map_values(|s: String| s@)
}

/// Reads length-prefixed elements until the input ends or is faulty.
pub fn scan_strings(bytes: &[u8]) -> (r: (Vec<String>, FrameEnd))
    ensures
        (texts(r.0@), r.1) == scan(bytes@, 0),
{
    let mut out: Vec<String> = Vec::new();
    let mut at: usize = 0;
    proof {
        assert(texts(out@) + scan(bytes@, 0).0 =~= scan(bytes@, 0).0);
    }
    while at < bytes.len()
        invariant
            at <= bytes@.len(),
            scan(bytes@, 0) == (texts(out@) + scan(bytes@, at as int).0, scan(bytes@, at as int).1),
        decreases bytes@.len() - at,
    {
        let left: usize = bytes.len() - at;
        if left < 4 {
            assert(texts(out@) + Seq::<Seq<char>>::empty() =~= texts(out@));
            return (out, FrameEnd::ShortPrefix { offset: at });
        }
        let prefix = vstd::slice::slice_subrange(bytes, at, at + 4);
        let len: usize = read_u32(prefix) as usize;
        let start: usize = at + 4;
        if len > bytes.len() - start {
            assert(texts(out@) + Seq::<Seq<char>>::empty() =~= texts(out@));
            return (out, FrameEnd::ShortPayload { len, offset: start });
        }
        let payload = vstd::slice::slice_to_vec(
            vstd::slice::slice_subrange(bytes, start, start + len),
        );
        match decode_text(payload) {
            Err(fault) => {
                assert(texts(out@) + Seq::<Seq<char>>::empty() =~= texts(out@));
                return (out, FrameEnd::BadText { fault });
            },
            Ok(s) => {
                let ghost before = texts(out@);
                let ghost rest = scan(bytes@, start + len).0;
                out.push(s);
                assert(texts(out@) =~= before.push(s@));
                assert(before + (seq![s@] + rest) =~= before.push(s@) + rest);
                at = start + len;
            },
        }
    }
    assert(texts(out@) + Seq::<Seq<char>>::empty() =~= texts(out@));
    (out, FrameEnd::Clean)
}

/// The four bytes of `n`, least significant first.
pub open spec fn prefix_bytes(n: nat) -> Seq<u8> {
    seq![
        (n % 256) as u8,
        (n / 256 % 256) as u8,
        (n / 65536 % 256) as u8,
        (n / 16777216 % 256) as u8,
    ]
}

/// One element as it stands on the wire.
pub open spec fn framed(s: Seq<char>) -> Seq<u8> {
    let payload = vstd::utf8::encode_utf8(s);
    prefix_bytes(payload.len()) + payload
}

/// Elements as they stand on the wire, one behind the other.
pub open spec fn framed_all(ss: Seq<Seq<char>>) -> Seq<u8>
    decreases ss.len(),
{
    if ss.len() == 0 {
        seq![]
    } else {
        framed(ss[0]) + framed_all(ss.drop_first())
    }
}

/// Whether the length of each element fits its prefix.
pub open spec fn frameable(ss: Seq<Seq<char>>) -> bool {
    forall|i: int|
        0 <= i < ss.len() ==> vstd::utf8::encode_utf8(#[trigger] ss[i]).len() < 0x1_0000_0000
}

proof fn lemma_prefix_value(n: nat)
    requires
        n < 0x1_0000_0000,
    ensures
        crate::text::little_endian(prefix_bytes(n)) == n,
{
    reveal_with_fuel(crate::text::little_endian, 5);
    let p = prefix_bytes(n);
    assert(p.drop_first().drop_first().drop_first().drop_first().len() == 0);
}

proof fn lemma_prefix_unique(b: Seq<u8>)
    requires
        b.len() == 4,
    ensures
        prefix_bytes(crate::text::little_endian(b)) == b,
        crate::text::little_endian(b) < 0x1_0000_0000,
{
    reveal_with_fuel(crate::text::little_endian, 5);
    assert(b.drop_first().drop_first().drop_first().drop_first().len() == 0);
    assert(prefix_bytes(crate::text::little_endian(b)) =~= b);
}

proof fn lemma_scan_framed_from(head: Seq<u8>, ss: Seq<Seq<char>>, tail: Seq<u8>)
    requires
        frameable(ss),
    ensures
        ({
            let bytes = head + framed_all(ss) + tail;
            let left = scan(bytes, (head + framed_all(ss)).len() as int);
            scan(bytes, head.len() as int) == (ss + left.0, left.1)
        }),
    decreases ss.len(),
{
    let bytes = head + framed_all(ss) + tail;
    let left = scan(bytes, (head + framed_all(ss)).len() as int);
    if ss.len() == 0 {
        assert(head + framed_all(ss) =~= head);
        assert(ss + left.0 =~= left.0);
    } else {
        let s = ss[0];
        let rest = ss.drop_first();
        let payload = vstd::utf8::encode_utf8(s);
        let at = head.len() as int;
        lemma_prefix_value(payload.len());
        assert(bytes.subrange(at, at + 4) =~= prefix_bytes(payload.len()));
        assert(bytes.subrange(at + 4, at + 4 + payload.len()) =~= payload);
        vstd::utf8::encode_utf8_valid_utf8(s);
        vstd::utf8::encode_utf8_decode_utf8(s);
        let next = head + framed(s);
        assert(next + framed_all(rest) =~= head + framed_all(ss));
        assert forall|i: int| 0 <= i < rest.len() implies vstd::utf8::encode_utf8(
            #[trigger] rest[i],
        ).len() < 0x1_0000_0000 by {
            assert(rest[i] == ss[i + 1]);
        }
        lemma_scan_framed_from(next, rest, tail);
        assert(seq![s] + (rest + left.0) =~= ss + left.0);
    }
}

/// What is written in the raw encoding is read back: the elements come out as they
/// were, in order, and nothing is left over.
pub proof fn law_framed_reads_back(ss: Seq<Seq<char>>)
    requires
        frameable(ss),
        framed_all(ss).len() <= usize::MAX,
    ensures
        scan(framed_all(ss), 0) == (ss, FrameEnd::Clean),
{
    let none = Seq::<u8>::empty();
    lemma_scan_framed_from(none, ss, none);
    assert(none + framed_all(ss) + none =~= framed_all(ss));
    assert(ss + Seq::<Seq<char>>::empty() =~= ss);
}

proof fn lemma_scan_clean_is_framed(bytes: Seq<u8>, at: int)
    requires
        0 <= at <= bytes.len(),
        scan(bytes, at).1 == FrameEnd::Clean,
    ensures
        framed_all(scan(bytes, at).0) == bytes.skip(at),
        frameable(scan(bytes, at).0),
    decreases bytes.len() - at,
{
    let ss = scan(bytes, at).0;
    if at == bytes.len() {
        assert(framed_all(ss) =~= bytes.skip(at));
    } else {
        let prefix = bytes.subrange(at, at + 4);
        let len = crate::text::little_endian(prefix);
        let end = at + 4 + len;
        let payload = bytes.subrange(at + 4, end);
        lemma_prefix_unique(prefix);
        lemma_scan_clean_is_framed(bytes, end);
        let s = vstd::utf8::decode_utf8(payload);
        let rest = scan(bytes, end).0;
        vstd::utf8::decode_utf8_encode_utf8(payload);
        assert(ss == seq![s] + rest);
        assert(ss.drop_first() =~= rest);
        assert(ss[0] == s);
        assert(prefix + payload + bytes.skip(end) =~= bytes.skip(at));
        assert(framed_all(ss) == framed(s) + framed_all(rest));
        assert forall|i: int| 0 <= i < ss.len() implies vstd::utf8::encode_utf8(
            #[trigger] ss[i],
        ).len() < 0x1_0000_0000 by {
            if i > 0 {
                assert(ss[i] == rest[i - 1]);
            }
        }
    }
}

/// Bytes that are read without a fault are the encoding of what was read, so no two
/// inputs are read as the same elements.
pub proof fn law_clean_scan_is_framed(bytes: Seq<u8>)
    requires
        scan(bytes, 0).1 == FrameEnd::Clean,
    ensures
        framed_all(scan(bytes, 0).0) == bytes,
        frameable(scan(bytes, 0).0),
{
    lemma_scan_clean_is_framed(bytes, 0);
    assert(bytes.skip(0) =~= bytes);
}

/// The encoding in bytes: nothing for no element, and for an element four bytes that give the
/// number of its bytes of UTF-8, the least significant first, followed by these. What comes
/// behind the first element is encoded as if it stood alone.
pub proof fn law_framing_in_bytes(s: Seq<char>, rest: Seq<Seq<char>>)
    requires
        vstd::utf8::encode_utf8(s).len() < 0x1_0000_0000,
    ensures
        framed_all(Seq::<Seq<char>>::empty()).len() == 0,
        framed_all(seq![s]).len() == 4 + vstd::utf8::encode_utf8(s).len(),
        framed_all(seq![s])[0] + 256 * framed_all(seq![s])[1] + 65536 * framed_all(seq![s])[2]
            + 16777216 * framed_all(seq![s])[3] == vstd::utf8::encode_utf8(s).len(),
        framed_all(seq![s]).skip(4) == vstd::utf8::encode_utf8(s),
        framed_all(seq![s] + rest) == framed_all(seq![s]) + framed_all(rest),
{
    let none = Seq::<Seq<char>>::empty();
    assert(seq![s].drop_first() =~= none);
    assert(framed_all(seq![s]) =~= framed(s) + framed_all(none));
    assert(framed_all(seq![s]) =~= framed(s));
    assert((seq![s] + rest).drop_first() =~= rest);
    assert((seq![s] + rest)[0] == s);
    assert(framed_all(seq![s]).skip(4) =~= vstd::utf8::encode_utf8(s));
}

/// What is wrong with bytes that follow whole elements: fewer than four of them are no length,
/// a length that is larger than what follows it has no element, and an element that is not
/// UTF-8 is none. The elements before are read all the same.
pub proof fn law_scan_faults(ss: Seq<Seq<char>>, tail: Seq<u8>)
    requires
        frameable(ss),
        framed_all(ss).len() + tail.len() <= usize::MAX,
    ensures
        0 < tail.len() < 4 ==> scan(framed_all(ss) + tail, 0) == (
            ss,
            FrameEnd::ShortPrefix { offset: framed_all(ss).len() as usize },
        ),
        tail.len() >= 4 ==> {
            let len = tail[0] + 256 * tail[1] + 65536 * tail[2] + 16777216 * tail[3];
            &&& len > tail.len() - 4 ==> scan(framed_all(ss) + tail, 0) == (
                ss,
                FrameEnd::ShortPayload {
                    len: len as usize,
                    offset: (framed_all(ss).len() + 4) as usize,
                },
            )
            &&& len <= tail.len() - 4 ==> (crate::text::decoded(tail.subrange(4, 4 + len))
                matches Err(fault) ==> scan(framed_all(ss) + tail, 0) == (
                ss,
                FrameEnd::BadText { fault },
            ))
        },
{
    let none = Seq::<u8>::empty();
    let bytes = framed_all(ss) + tail;
    let at = framed_all(ss).len() as int;
    lemma_scan_framed_from(none, ss, tail);
    assert(none + framed_all(ss) =~= framed_all(ss));
    assert(ss + Seq::<Seq<char>>::empty() =~= ss);
    if tail.len() >= 4 {
        let prefix = tail.take(4);
        let len = tail[0] + 256 * tail[1] + 65536 * tail[2] + 16777216 * tail[3];
        reveal_with_fuel(crate::text::little_endian, 5);
        assert(prefix.drop_first().drop_first().drop_first().drop_first().len() == 0);
        assert(crate::text::little_endian(prefix) == len);
        assert(bytes.subrange(at, at + 4) =~= prefix);
        if len <= tail.len() - 4 {
            assert(bytes.subrange(at + 4, at + 4 + len) =~= tail.subrange(4, 4 + len));
        }
    }
}

/// The texts of strings are their characters, in order.
pub proof fn law_texts_hold_the_strings(v: Seq<String>)
    ensures
        texts(v).len() == v.len(),
        forall|i: int| 0 <= i < v.len() ==> (#[trigger] texts(v)[i]) == v[i]@,
{
}

} // verus!
