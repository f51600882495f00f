//! Runs of fixed-width fields, read one field after another.
use vstd::prelude::*;
use crate::error::ParseError;
use crate::reader::{Reader, Stream};

verus! {

/// The number of bytes that the first `k` fields take.
pub open spec fn span(widths: Seq<usize>, k: int) -> int
    decreases k,
{
    if k <= 0 {
        0
    } else {
        span(widths, k - 1) + widths[k - 1]
    }
}

/// What reading the fields from the `k`th on does, one after another, with `s` at the
/// first byte of the `k`th field: the error of the first field that cannot be read
/// whole, if there is one, and the stream as that leaves it.
pub open spec fn fields_from(s: Stream, widths: Seq<usize>, k: int) -> (Option<ParseError>, Stream)
    decreases widths.len() - k,
{
    if k < 0 || k >= widths.len() {
        (None, s)
    } else if !s.readable(widths[k] as int) {
        (Some(s.shortfall(widths[k] as int)), s)
    } else {
        fields_from(s.skip(widths[k] as int), widths, k + 1)
    }
}

/// What reading fields of these widths at `s` gives: the bytes of all of them, or the
/// error of the first that cannot be read whole, with the cursor before that field.
pub open spec fn fields(s: Stream, widths: Seq<usize>) -> (Result<Seq<u8>, ParseError>, Stream) {
    match fields_from(s, widths, 0) {
        (None, t) => (Ok(s.peek(span(widths, widths.len() as int))), t),
        (Some(e), t) => (Err(e), t),
    }
}

/// Fields that were all read lie one behind the other at the cursor, and the cursor
/// ends behind the last of them.
pub proof fn lemma_fields_read(s: Stream, widths: Seq<usize>, k: int)
    requires
        0 <= k <= widths.len(),
        fields_from(s, widths, k).0 is None,
    ensures
        fields_from(s, widths, k).1 == s.skip(span(widths, widths.len() as int) - span(widths, k)),
        k < widths.len() ==> s.readable(span(widths, widths.len() as int) - span(widths, k)),
        span(widths, k) <= span(widths, widths.len() as int),
    decreases widths.len() - k,
{
    if k < widths.len() {
        lemma_fields_read(s.skip(widths[k] as int), widths, k + 1);
    }
}

/// Reads fields of the given widths one after another and returns their bytes in one
/// vector. The first field that cannot be read whole ends the reading with its
/// error; the cursor then stands before that field.
pub fn read_fields(reader: &mut Reader, widths: &[usize]) -> (r: Result<Vec<u8>, ParseError>)
    ensures
        match r {
            Ok(bytes) => (Ok::<Seq<u8>, ParseError>(bytes@), final(reader)@) == fields(
                old(reader)@,
                widths@,
            ),
            Err(e) => (Err::<Seq<u8>, ParseError>(e), final(reader)@) == fields(
                old(reader)@,
                widths@,
            ),
        },
        r matches Ok(bytes) ==> bytes@.len() == span(widths@, widths@.len() as int),
{
    let mut bytes: Vec<u8> = Vec::new();
    let mut k: usize = 0;
    proof {
        reader.bounds();
        assert(bytes@ =~= old(reader)@.peek(0));
    }
    while k < widths.len()
        invariant
            k <= widths@.len(),
            fields_from(old(reader)@, widths@, 0) == fields_from(reader@, widths@, k as int),
            reader@ == old(reader)@.skip(span(widths@, k as int)),
            bytes@ == old(reader)@.peek(span(widths@, k as int)),
            bytes@.len() == span(widths@, k as int),
        decreases widths@.len() - k,
    {
        match reader.read_vec(widths[k]) {
            Err(e) => {
                return Err(e);
            },
            Ok(mut field) => {
                assert(field@.len() == widths@[k as int]);
                bytes.append(&mut field);
            },
        }
        k = k + 1;
        assert(span(widths@, k as int) == span(widths@, k - 1) + widths@[k - 1]);
        assert(bytes@ =~= old(reader)@.peek(span(widths@, k as int)));
    }
    Ok(bytes)
}

/// Fields are all read exactly where their bytes can be read in one piece.
pub proof fn lemma_fields_readable(s: Stream, widths: Seq<usize>, k: int)
    requires
        0 <= k < widths.len(),
    ensures
        fields_from(s, widths, k).0 is None <==> s.readable(
            span(widths, widths.len() as int) - span(widths, k),
        ),
    decreases widths.len() - k,
{
    let rest = span(widths, widths.len() as int) - span(widths, k + 1);
    assert(span(widths, k + 1) == span(widths, k) + widths[k]);
    lemma_span_grows(widths, k + 1, widths.len() as int);
    if k + 1 < widths.len() {
        lemma_fields_readable(s.skip(widths[k] as int), widths, k + 1);
    } else {
        assert(rest == 0);
    }
}

/// More fields take no fewer bytes.
pub proof fn lemma_span_grows(widths: Seq<usize>, a: int, b: int)
    requires
        0 <= a <= b,
    ensures
        0 <= span(widths, a) <= span(widths, b),
    decreases b,
{
    if b > 0 {
        if a < b {
            lemma_span_grows(widths, a, b - 1);
        } else {
            lemma_span_grows(widths, a - 1, b - 1);
        }
    }
}

/// Fields that take exactly the bytes before the limit leave none of them: a body
/// that its fields use up is read to its end.
pub proof fn lemma_fields_use_up(s: Stream, widths: Seq<usize>)
    requires
        s.limit == Some(s.pos + span(widths, widths.len() as int)),
        fields(s, widths).0 is Ok,
    ensures
        fields(s, widths).1.remain() == 0,
{
    lemma_fields_read(s, widths, 0);
}

} // verus!
