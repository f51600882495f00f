//! Decoders for the values that a box body is made of.
use vstd::prelude::*;
use crate::bytes::{
    array_of, be_u16, be_u32, be_u64, lemma_array_of, u16_from_be, u32_from_be, u64_from_be,
};
use crate::error::ParseError;
use crate::header::U32Tag;
use crate::reader::{Reader, Stream};

verus! {

/// A result with its value replaced by the value's model.
pub open spec fn modeled<T: DeepView>(r: Result<T, ParseError>) -> Result<T::V, ParseError> {
    match r {
        Ok(v) => Ok(v.deep_view()),
        Err(e) => Err(e),
    }
}

/// What reading a value of `n` bytes at `s` gives: the value that `value` makes of the
/// bytes, with the cursor past them, or the read's error, with the cursor unmoved.
pub open spec fn fixed<V>(s: Stream, n: int, value: spec_fn(Seq<u8>) -> V) -> (
    Result<V, ParseError>,
    Stream,
) {
    if s.readable(n) {
        (Ok(value(s.peek(n))), s.skip(n))
    } else {
        (Err(s.shortfall(n)), s)
    }
}

/// A value that can be decoded at a reader's cursor.
pub trait AttrRead: Sized + DeepView {
    /// What decoding one value at `s` gives, and the stream as the decoder leaves it.
    spec fn decode(s: Stream) -> (Result<<Self as DeepView>::V, ParseError>, Stream);

    /// Decodes one value at the reader's cursor.
    fn read_attr(reader: &mut Reader) -> (r: Result<Self, ParseError>)
        ensures
            (modeled(r), final(reader)@) == Self::decode(old(reader)@),
    ;
}

impl AttrRead for u8 {
    open spec fn decode(s: Stream) -> (Result<u8, ParseError>, Stream) {
        fixed(s, 1, |b: Seq<u8>| b[0])
    }

    fn read_attr(reader: &mut Reader) -> (r: Result<u8, ParseError>) {
        let mut buf: [u8; 1] = [0u8; 1];
        match reader.read_exact(&mut buf) {
            Err(e) => Err(e),
            Ok(_) => Ok(buf[0]),
        }
    }
}

impl AttrRead for u16 {
    open spec fn decode(s: Stream) -> (Result<u16, ParseError>, Stream) {
        fixed(s, 2, |b: Seq<u8>| u16_from_be(b))
    }

    fn read_attr(reader: &mut Reader) -> (r: Result<u16, ParseError>) {
        let mut buf: [u8; 2] = [0u8; 2];
        match reader.read_exact(&mut buf) {
            Err(e) => Err(e),
            Ok(_) => Ok(be_u16(&buf)),
        }
    }
}

impl AttrRead for u32 {
    open spec fn decode(s: Stream) -> (Result<u32, ParseError>, Stream) {
        fixed(s, 4, |b: Seq<u8>| u32_from_be(b))
    }

    fn read_attr(reader: &mut Reader) -> (r: Result<u32, ParseError>) {
        let mut buf: [u8; 4] = [0u8; 4];
        match reader.read_exact(&mut buf) {
            Err(e) => Err(e),
            Ok(_) => Ok(be_u32(&buf)),
        }
    }
}

impl AttrRead for u64 {
    open spec fn decode(s: Stream) -> (Result<u64, ParseError>, Stream) {
        fixed(s, 8, |b: Seq<u8>| u64_from_be(b))
    }

    fn read_attr(reader: &mut Reader) -> (r: Result<u64, ParseError>) {
        let mut buf: [u8; 8] = [0u8; 8];
        match reader.read_exact(&mut buf) {
            Err(e) => Err(e),
            Ok(_) => Ok(be_u64(&buf)),
        }
    }
}

impl<const N: usize> AttrRead for [u8; N] {
    open spec fn decode(s: Stream) -> (Result<Seq<u8>, ParseError>, Stream) {
        fixed(s, N as int, |b: Seq<u8>| b)
    }

    fn read_attr(reader: &mut Reader) -> (r: Result<[u8; N], ParseError>) {
        let mut buf: [u8; N] = [0u8; N];
        match reader.read_exact(&mut buf) {
            Err(e) => Err(e),
            Ok(_) => {
                assert(buf.deep_view() =~= buf@);
                Ok(buf)
            },
        }
    }
}

impl AttrRead for U32Tag {
    open spec fn decode(s: Stream) -> (Result<U32Tag, ParseError>, Stream) {
        fixed(s, 4, |b: Seq<u8>| U32Tag { raw: array_of::<4>(b) })
    }

    fn read_attr(reader: &mut Reader) -> (r: Result<U32Tag, ParseError>) {
        let mut raw: [u8; 4] = [0u8; 4];
        match reader.read_exact(&mut raw) {
            Err(e) => Err(e),
            Ok(_) => {
                proof {
                    lemma_array_of::<4>(raw);
                }
                Ok(U32Tag { raw })
            },
        }
    }
}

/// What decoding values of `T` one after another from `s` gives. The list ends after
/// a value that leaves nothing before the limit, and before a value that the limit
/// cuts short; any other error ends the decoding with that error. It also ends after
/// a value whose decoding did not move the cursor.
pub open spec fn decode_list<T: AttrRead>(s: Stream) -> (Result<Seq<T::V>, ParseError>, Stream)
    decreases u64::MAX - s.pos,
{
    match T::decode(s) {
        (Ok(v), t) => {
            if t.remain() == 0 || t.pos <= s.pos || t.pos > u64::MAX {
                (Ok(seq![v]), t)
            } else {
                match decode_list::<T>(t) {
                    (Ok(rest), u) => (Ok(seq![v] + rest), u),
                    (Err(e), u) => (Err(e), u),
                }
            }
        },
        (Err(ParseError::OutOfBounds), t) => (Ok(Seq::empty()), t),
        (Err(e), t) => (Err(e), t),
    }
}

impl<T: AttrRead> AttrRead for Vec<T> {
    open spec fn decode(s: Stream) -> (Result<Seq<T::V>, ParseError>, Stream) {
        decode_list::<T>(s)
    }

    fn read_attr(reader: &mut Reader) -> (r: Result<Vec<T>, ParseError>) {
        let mut buf: Vec<T> = Vec::new();
        let ghost start = reader@;
        loop
            invariant
                start == old(reader)@,
                match decode_list::<T>(reader@) {
                    (Ok(rest), u) => decode_list::<T>(start) == (
                        Ok::<Seq<T::V>, ParseError>(buf.deep_view() + rest),
                        u,
                    ),
                    (Err(e), u) => decode_list::<T>(start) == (Err::<Seq<T::V>, ParseError>(e), u),
                },
            decreases u64::MAX - reader@.pos,
        {
            let before: u64 = reader.pos();
            let ghost here = reader@;
            let ghost sofar = buf.deep_view();
            match T::read_attr(reader) {
                Ok(t) => {
                    let ghost v = t.deep_view();
                    buf.push(t);
                    proof {
                        reader.bounds();
                        assert(buf.deep_view() =~= sofar + seq![v]);
                    }
                    if reader.remain() == 0 || reader.pos() <= before {
                        proof {
                            assert(decode_list::<T>(here) == (
                                Ok::<Seq<T::V>, ParseError>(seq![v]),
                                reader@,
                            ));
                            assert(<Vec<T> as AttrRead>::decode(start) == decode_list::<T>(start));
                        }
                        return Ok(buf);
                    }
                    proof {
                        match decode_list::<T>(reader@) {
                            (Ok(rest), u) => {
                                assert(sofar + (seq![v] + rest) =~= buf.deep_view() + rest);
                            },
                            (Err(e), u) => {},
                        }
                    }
                },
                Err(ParseError::OutOfBounds) => {
                    proof {
                        assert(decode_list::<T>(here) == (
                            Ok::<Seq<T::V>, ParseError>(Seq::empty()),
                            reader@,
                        ));
                        assert(sofar + Seq::<T::V>::empty() =~= buf.deep_view());
                        assert(<Vec<T> as AttrRead>::decode(start) == decode_list::<T>(start));
                    }
                    return Ok(buf);
                },
                Err(e) => {
                    proof {
                        assert(decode_list::<T>(here) == (
                            Err::<Seq<T::V>, ParseError>(e),
                            reader@,
                        ));
                        assert(<Vec<T> as AttrRead>::decode(start) == decode_list::<T>(start));
                    }
                    return Err(e);
                },
            }
        }
    }
}

/// Whether every value of `T` takes `w` bytes: one is decoded wherever `w` bytes can
/// be read, and none where nothing is left before the limit.
pub open spec fn takes_width<T: AttrRead>(w: int) -> bool {
    &&& w > 0
    &&& forall|s: Stream|
        #![trigger T::decode(s)]
        s.readable(w) ==> T::decode(s).0 is Ok && T::decode(s).1 == s.skip(w)
    &&& forall|s: Stream|
        #![trigger T::decode(s)]
        s.remain() == 0 ==> T::decode(s) == (
            Err::<<T as DeepView>::V, ParseError>(ParseError::OutOfBounds),
            s,
        )
}

/// The numbers, the byte arrays and the tags take their own width.
pub proof fn lemma_widths<const N: usize>()
    ensures
        takes_width::<u8>(1),
        takes_width::<u16>(2),
        takes_width::<u32>(4),
        takes_width::<u64>(8),
        takes_width::<U32Tag>(4),
        N > 0 ==> takes_width::<[u8; N]>(N as int),
{
}

/// A list whose bytes are those of `k` whole values, all of which lie in the stream,
/// is decoded without error: it holds `k` values, the `i`th of them the value that
/// lies `i` widths into the list, and the cursor ends at the limit.
pub proof fn lemma_list_of_whole_values<T: AttrRead>(s: Stream, w: int, k: int)
    requires
        takes_width::<T>(w),
        0 <= k,
        0 <= s.pos,
        s.limit == Some(s.pos + k * w),
        s.pos + k * w <= s.data.len(),
        s.pos + k * w <= u64::MAX,
    ensures
        decode_list::<T>(s).0 is Ok,
        decode_list::<T>(s).0->Ok_0.len() == k,
        decode_list::<T>(s).1 == s.skip(k * w),
        forall|i: int|
            0 <= i < k ==> #[trigger] decode_list::<T>(s).0->Ok_0[i] == T::decode(
                s.skip(i * w),
            ).0->Ok_0,
    decreases k,
{
    let list = decode_list::<T>(s).0->Ok_0;
    assert(s.skip(0 * w) == s) by {
        assert(0 * w == 0) by (nonlinear_arith);
    }
    if k == 0 {
        assert(k * w == 0) by (nonlinear_arith)
            requires
                k == 0,
        ;
        assert(s.remain() == 0);
        assert(T::decode(s).0 == Err::<<T as DeepView>::V, ParseError>(ParseError::OutOfBounds));
        assert(decode_list::<T>(s).0 == Ok::<Seq<T::V>, ParseError>(Seq::empty()));
    } else {
        assert((k - 1) * w + w == k * w) by (nonlinear_arith);
        assert((k - 1) * w >= 0) by (nonlinear_arith)
            requires
                k >= 1,
                w > 0,
        ;
        assert(s.readable(w));
        let t = s.skip(w);
        assert(T::decode(s).0 is Ok && T::decode(s).1 == t);
        assert(t.remain() == (k - 1) * w);
        if k == 1 {
            assert((k - 1) * w == 0) by (nonlinear_arith)
                requires
                    k == 1,
            ;
            assert(t.remain() == 0);
            assert(decode_list::<T>(s).0->Ok_0 == seq![T::decode(s).0->Ok_0]);
        } else {
            assert((k - 1) * w > 0) by (nonlinear_arith)
                requires
                    k > 1,
                    w > 0,
            ;
            lemma_list_of_whole_values::<T>(t, w, k - 1);
            assert(t.skip((k - 1) * w) == s.skip(k * w));
            let rest = decode_list::<T>(t).0->Ok_0;
            assert(list == seq![T::decode(s).0->Ok_0] + rest);
            assert forall|i: int| 0 <= i < k implies #[trigger] list[i] == T::decode(
                s.skip(i * w),
            ).0->Ok_0 by {
                if i > 0 {
                    assert((i - 1) * w + w == i * w) by (nonlinear_arith);
                    assert(list[i] == rest[i - 1]);
                    assert(t.skip((i - 1) * w) == s.skip(i * w));
                }
            }
        }
    }
}

} // verus!
