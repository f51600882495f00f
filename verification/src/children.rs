//! The walk over the children of a box: each child's header is read, the child goes
//! to the first field that takes its tag, and a child that no field takes is skipped.
use vstd::prelude::*;
use core::marker::PhantomData;
use crate::boxes::{past_body, BoxRead};
use crate::error::ParseError;
use crate::header::BoxHeader;
use crate::placeholder::BoxPlaceholder;
use crate::reader::{Reader, Stream};

verus! {

/// The fields of a box, each a placeholder for children of one type.
pub trait Children: Sized + DeepView {
    /// Whether one of the fields takes a child with this tag.
    spec fn wants(tag: [u8; 4]) -> bool;

    /// What becomes of the fields and of the reader, which stands at `s`, behind the
    /// child's header, when the first field that takes the child's tag reads the
    /// child and stores it.
    spec fn taken(fields: <Self as DeepView>::V, header: BoxHeader, s: Stream) -> (
        Result<<Self as DeepView>::V, ParseError>,
        Stream,
    );

    /// Taking a child leaves the reader where it was or just past the child's body,
    /// and a child that was taken lies wholly before the reader.
    proof fn taken_moves(fields: <Self as DeepView>::V, header: BoxHeader, s: Stream)
        ensures
            Self::taken(fields, header, s).1 == s || past_body(
                header,
                s,
                Self::taken(fields, header, s).1,
            ),
            Self::taken(fields, header, s).0 is Ok ==> past_body(
                header,
                s,
                Self::taken(fields, header, s).1,
            ),
    ;

    /// Offers the child with this header to the fields. `Ok(false)` means that no
    /// field takes its tag: nothing was read or stored.
    fn take(&mut self, header: BoxHeader, reader: &mut Reader) -> (r: Result<bool, ParseError>)
        ensures
            if Self::wants(header.id) {
                match Self::taken(old(self).deep_view(), header, old(reader)@) {
                    (Ok(fields), t) => {
                        &&& r == Ok::<bool, ParseError>(true)
                        &&& final(self).deep_view() == fields
                        &&& final(reader)@ == t
                    },
                    (Err(e), t) => r == Err::<bool, ParseError>(e) && final(reader)@ == t,
                }
            } else {
                &&& r == Ok::<bool, ParseError>(false)
                &&& final(self).deep_view() == old(self).deep_view()
                &&& final(reader)@ == old(reader)@
            },
    ;
}

/// A box without fields: every child is unknown to it.
pub struct NoField;

impl DeepView for NoField {
    type V = ();

    open spec fn deep_view(&self) -> () {
        ()
    }
}

impl Children for NoField {
    open spec fn wants(tag: [u8; 4]) -> bool {
        false
    }

    open spec fn taken(fields: (), header: BoxHeader, s: Stream) -> (
        Result<(), ParseError>,
        Stream,
    ) {
        (Err(ParseError::InvalidData { tag: header.id }), s)
    }

    proof fn taken_moves(fields: (), header: BoxHeader, s: Stream) {
    }

    fn take(&mut self, header: BoxHeader, reader: &mut Reader) -> (r: Result<bool, ParseError>) {
        Ok(false)
    }
}

/// One field of a box, with the fields declared after it. `slot` collects the
/// children of type `T`.
pub struct Field<T, P, Rest> {
    pub slot: P,
    pub rest: Rest,
    pub item: PhantomData<T>,
}

impl<T, P: DeepView, Rest: DeepView> DeepView for Field<T, P, Rest> {
    type V = (P::V, Rest::V);

    open spec fn deep_view(&self) -> (P::V, Rest::V) {
        (self.slot.deep_view(), self.rest.deep_view())
    }
}

impl<T, P, Rest> Field<T, P, Rest> {
    /// The field that collects into `slot`, before the fields of `rest`.
    pub fn new(slot: P, rest: Rest) -> (field: Self)
        ensures
            field.slot == slot,
            field.rest == rest,
    {
        Field { slot, rest, item: PhantomData }
    }
}

impl<T: BoxRead, P: BoxPlaceholder<T>, Rest: Children> Children for Field<T, P, Rest> {
    open spec fn wants(tag: [u8; 4]) -> bool {
        T::accepts(tag) || Rest::wants(tag)
    }

    /// A child whose tag this field accepts is read and stored here, even where a
    /// later field would accept it too.
    open spec fn taken(fields: (P::V, Rest::V), header: BoxHeader, s: Stream) -> (
        Result<(P::V, Rest::V), ParseError>,
        Stream,
    ) {
        if T::accepts(header.id) {
            match T::parsed(header, s) {
                (Err(e), t) => (Err(e), t),
                (Ok(child), t) => match P::pushed(fields.0, child) {
                    Err(e) => (Err(e), t),
                    Ok(held) => (Ok((held, fields.1)), t),
                },
            }
        } else {
            match Rest::taken(fields.1, header, s) {
                (Err(e), t) => (Err(e), t),
                (Ok(rest), t) => (Ok((fields.0, rest)), t),
            }
        }
    }

    proof fn taken_moves(fields: (P::V, Rest::V), header: BoxHeader, s: Stream) {
        T::parsed_moves(header, s);
        Rest::taken_moves(fields.1, header, s);
    }

    fn take(&mut self, header: BoxHeader, reader: &mut Reader) -> (r: Result<bool, ParseError>) {
        if self.slot.acceptable_tag(header.id) {
            let child = self.slot.read_body(header, reader)?;
            self.slot.push(child)?;
            Ok(true)
        } else {
            self.rest.take(header, reader)
        }
    }
}

/// What walking the children from `s` on does, with `fields` holding what earlier
/// children left. The walk goes on while bytes remain before the limit. A header
/// that cannot be read ends it with that error, and so does a child that fails or
/// that its field refuses. A child that no field takes is stepped over.
pub open spec fn children<F: Children>(fields: <F as DeepView>::V, s: Stream) -> (
    Result<<F as DeepView>::V, ParseError>,
    Stream,
)
    decreases u64::MAX - s.pos,
{
    if s.remain() <= 0 {
        (Ok(fields), s)
    } else {
        match BoxHeader::decode(s) {
            (Err(e), t) => (Err(e), t),
            (Ok(header), t) => {
                if F::wants(header.id) {
                    match F::taken(fields, header, t) {
                        (Err(e), u) => (Err(e), u),
                        (Ok(held), u) => {
                            proof {
                                F::taken_moves(fields, header, t);
                            }
                            children::<F>(held, u)
                        },
                    }
                } else if t.pos + header.body_len() > u64::MAX {
                    (Err(ParseError::InvalidSeek), t)
                } else {
                    children::<F>(fields, t.skip(header.body_len()))
                }
            },
        }
    }
}

/// Walks the children that lie between the reader's cursor and its limit.
pub fn read_children<F: Children>(fields: &mut F, reader: &mut Reader) -> (r: Result<
    (),
    ParseError,
>)
    ensures
        match children::<F>(old(fields).deep_view(), old(reader)@) {
            (Ok(held), t) => r is Ok && final(fields).deep_view() == held && final(reader)@ == t,
            (Err(e), t) => r == Err::<(), ParseError>(e) && final(reader)@ == t,
        },
{
    while reader.remain() > 0
        invariant
            children::<F>(old(fields).deep_view(), old(reader)@) == children::<F>(
                fields.deep_view(),
                reader@,
            ),
        decreases u64::MAX - reader@.pos,
    {
        let ghost held = fields.deep_view();
        let header = BoxHeader::read(reader)?;
        proof {
            reader.bounds();
            F::taken_moves(held, header, reader@);
        }
        if !fields.take(header, reader)? {
            reader.seek_from_current(header.body_size() as i64)?;
        }
        proof {
            reader.bounds();
        }
    }
    Ok(())
}

/// A walk that succeeds leaves no byte before the limit.
pub proof fn lemma_walk_reaches_limit<F: Children>(fields: <F as DeepView>::V, s: Stream)
    requires
        children::<F>(fields, s).0 is Ok,
    ensures
        children::<F>(fields, s).1.remain() <= 0,
        children::<F>(fields, s).1.data == s.data,
        children::<F>(fields, s).1.limit == s.limit,
        children::<F>(fields, s).1.pos >= s.pos,
    decreases u64::MAX - s.pos,
{
    if s.remain() > 0 {
        let (header, t) = BoxHeader::decode(s);
        let header = header->Ok_0;
        if F::wants(header.id) {
            F::taken_moves(fields, header, t);
            let (held, u) = F::taken(fields, header, t);
            lemma_walk_reaches_limit::<F>(held->Ok_0, u);
        } else {
            lemma_walk_reaches_limit::<F>(fields, t.skip(header.body_len()));
        }
    }
}

/// Whether every box that the walk from `s` on comes to, taken or stepped over, ends
/// at or before the limit.
pub open spec fn boxes_within<F: Children>(fields: <F as DeepView>::V, s: Stream) -> bool
    decreases u64::MAX - s.pos,
{
    if s.remain() <= 0 {
        s.remain() == 0
    } else {
        match BoxHeader::decode(s) {
            (Err(_), _) => true,
            (Ok(header), t) => {
                &&& t.skip(header.body_len()).remain() >= 0
                &&& if F::wants(header.id) {
                    match F::taken(fields, header, t) {
                        (Err(_), _) => true,
                        (Ok(held), u) => {
                            proof {
                                F::taken_moves(fields, header, t);
                            }
                            boxes_within::<F>(held, u)
                        },
                    }
                } else if t.pos + header.body_len() > u64::MAX {
                    true
                } else {
                    boxes_within::<F>(fields, t.skip(header.body_len()))
                }
            },
        }
    }
}

/// A walk that succeeds over boxes that all end at or before the limit ends exactly
/// at the limit.
pub proof fn lemma_walk_ends_at_limit<F: Children>(fields: <F as DeepView>::V, s: Stream)
    requires
        children::<F>(fields, s).0 is Ok,
        boxes_within::<F>(fields, s),
    ensures
        children::<F>(fields, s).1.remain() == 0,
    decreases u64::MAX - s.pos,
{
    if s.remain() > 0 {
        let (header, t) = BoxHeader::decode(s);
        let header = header->Ok_0;
        if F::wants(header.id) {
            F::taken_moves(fields, header, t);
            let (held, u) = F::taken(fields, header, t);
            lemma_walk_ends_at_limit::<F>(held->Ok_0, u);
        } else {
            lemma_walk_ends_at_limit::<F>(fields, t.skip(header.body_len()));
        }
    }
}

/// A child that no field takes does not make the walk fail: the walk goes on behind
/// the child as if it had begun there, with the fields as they were.
pub proof fn lemma_unknown_child_skipped<F: Children>(fields: <F as DeepView>::V, s: Stream)
    requires
        s.remain() > 0,
        BoxHeader::decode(s).0 matches Ok(header) && !F::wants(header.id) && s.pos + header.size
            <= u64::MAX,
    ensures
        children::<F>(fields, s) == children::<F>(
            fields,
            s.skip(BoxHeader::decode(s).0->Ok_0.size as int),
        ),
{
}

/// A child that a field takes moves the walk on by the size that the child's header
/// declares.
pub proof fn lemma_known_child_taken<F: Children>(fields: <F as DeepView>::V, s: Stream)
    requires
        s.remain() > 0,
        BoxHeader::decode(s).0 matches Ok(header) && F::wants(header.id) && F::taken(
            fields,
            header,
            BoxHeader::decode(s).1,
        ).0 is Ok,
    ensures
        children::<F>(fields, s) == children::<F>(
            F::taken(fields, BoxHeader::decode(s).0->Ok_0, BoxHeader::decode(s).1).0->Ok_0,
            s.skip(BoxHeader::decode(s).0->Ok_0.size as int),
        ),
{
    let (header, t) = BoxHeader::decode(s);
    F::taken_moves(fields, header->Ok_0, t);
}

} // verus!
