//! Where the children of a box are collected while its body is read: one kind of
//! placeholder for each number of times a child may occur.
use vstd::prelude::*;
use crate::attr::modeled;
use crate::boxes::BoxRead;
use crate::error::ParseError;
use crate::header::BoxHeader;
use crate::reader::Reader;

verus! {

/// Collects the children of type `T` that a box holds.
pub trait BoxPlaceholder<T: BoxRead>: Sized + DeepView {
    /// What the placeholder gives up in the end.
    type Output: DeepView;

    /// The placeholder after it has taken one more child, or why it does not take it.
    spec fn pushed(held: <Self as DeepView>::V, value: <T as DeepView>::V) -> Result<
        <Self as DeepView>::V,
        ParseError,
    >;

    /// What the placeholder gives up for the field called `name`, or why it cannot.
    spec fn got(held: <Self as DeepView>::V, name: &'static str) -> Result<
        <Self::Output as DeepView>::V,
        ParseError,
    >;

    /// Takes one more child. A placeholder that refuses it stays as it was.
    fn push(&mut self, value: T) -> (r: Result<(), ParseError>)
        ensures
            match Self::pushed(old(self).deep_view(), value.deep_view()) {
                Ok(held) => r is Ok && final(self).deep_view() == held,
                Err(e) => r == Err::<(), ParseError>(e) && final(self).deep_view() == old(
                    self,
                ).deep_view(),
            },
    ;

    /// Gives up what was collected for the field called `name`.
    fn get(self, name: &'static str) -> (r: Result<Self::Output, ParseError>)
        ensures
            modeled(r) == Self::got(self.deep_view(), name),
    ;

    /// Whether a box with this tag is one of the children collected here.
    fn acceptable_tag(&self, tag: [u8; 4]) -> (accepted: bool)
        ensures
            accepted == T::accepts(tag),
    ;

    /// Reads the body of a child whose header has just been read.
    fn read_body(&self, header: BoxHeader, reader: &mut Reader) -> (r: Result<T, ParseError>)
        ensures
            (modeled(r), final(reader)@) == T::parsed(header, old(reader)@),
    ;
}

/// The placeholder for a field of type `Self`, which collects children of type `T`.
pub trait BoxContainer<T: BoxRead, D: BoxPlaceholder<T>> {
    /// What an empty placeholder holds.
    spec fn vacant() -> <D as DeepView>::V;

    /// An empty placeholder.
    fn placeholder() -> (empty: D)
        ensures
            empty.deep_view() == Self::vacant(),
    ;
}

/// The placeholder for a child that must occur exactly once.
pub struct SingleBoxPlaceholder<T> {
    inner: Option<T>,
}

impl<T: DeepView> DeepView for SingleBoxPlaceholder<T> {
    type V = Option<T::V>;

    closed spec fn deep_view(&self) -> Option<T::V> {
        self.inner.deep_view()
    }
}

impl<T: BoxRead> BoxPlaceholder<T> for SingleBoxPlaceholder<T> {
    type Output = T;

    /// A second child is refused.
    open spec fn pushed(held: Option<T::V>, value: T::V) -> Result<Option<T::V>, ParseError> {
        match held {
            None => Ok(Some(value)),
            Some(_) => Err(ParseError::AlreadyPresent),
        }
    }

    /// The child must have occurred.
    open spec fn got(held: Option<T::V>, name: &'static str) -> Result<T::V, ParseError> {
        match held {
            Some(value) => Ok(value),
            None => Err(ParseError::NotFound { field: name }),
        }
    }

    fn push(&mut self, value: T) -> (r: Result<(), ParseError>) {
        if self.inner.is_some() {
            return Err(ParseError::AlreadyPresent);
        }
        self.inner = Some(value);
        Ok(())
    }

    fn get(self, name: &'static str) -> (r: Result<T, ParseError>) {
        match self.inner {
            Some(inner) => Ok(inner),
            None => Err(ParseError::NotFound { field: name }),
        }
    }

    fn acceptable_tag(&self, tag: [u8; 4]) -> (accepted: bool) {
        T::acceptable_tag(tag)
    }

    fn read_body(&self, header: BoxHeader, reader: &mut Reader) -> (r: Result<T, ParseError>) {
        T::read_body(header, reader)
    }
}

impl<T: BoxRead> BoxPlaceholder<T> for Option<T> {
    type Output = Option<T>;

    /// A later child replaces an earlier one.
    open spec fn pushed(held: Option<T::V>, value: T::V) -> Result<Option<T::V>, ParseError> {
        Ok(Some(value))
    }

    open spec fn got(held: Option<T::V>, name: &'static str) -> Result<Option<T::V>, ParseError> {
        Ok(held)
    }

    fn push(&mut self, value: T) -> (r: Result<(), ParseError>) {
        *self = Some(value);
        Ok(())
    }

    fn get(self, name: &'static str) -> (r: Result<Option<T>, ParseError>) {
        Ok(self)
    }

    fn acceptable_tag(&self, tag: [u8; 4]) -> (accepted: bool) {
        T::acceptable_tag(tag)
    }

    fn read_body(&self, header: BoxHeader, reader: &mut Reader) -> (r: Result<T, ParseError>) {
        T::read_body(header, reader)
    }
}

impl<T: BoxRead> BoxPlaceholder<T> for Vec<T> {
    type Output = Vec<T>;

    /// Children are kept in the order in which they come.
    open spec fn pushed(held: Seq<T::V>, value: T::V) -> Result<Seq<T::V>, ParseError> {
        Ok(held.push(value))
    }

    open spec fn got(held: Seq<T::V>, name: &'static str) -> Result<Seq<T::V>, ParseError> {
        Ok(held)
    }

    fn push(&mut self, value: T) -> (r: Result<(), ParseError>) {
        let ghost held = self.deep_view();
        let ghost v = value.deep_view();
        self.push(value);
        assert(self.deep_view() =~= held.push(v));
        Ok(())
    }

    fn get(self, name: &'static str) -> (r: Result<Vec<T>, ParseError>) {
        Ok(self)
    }

    fn acceptable_tag(&self, tag: [u8; 4]) -> (accepted: bool) {
        T::acceptable_tag(tag)
    }

    fn read_body(&self, header: BoxHeader, reader: &mut Reader) -> (r: Result<T, ParseError>) {
        T::read_body(header, reader)
    }
}

impl<T: BoxRead> BoxContainer<T, SingleBoxPlaceholder<T>> for T {
    open spec fn vacant() -> Option<T::V> {
        None
    }

    fn placeholder() -> (empty: SingleBoxPlaceholder<T>) {
        let empty = SingleBoxPlaceholder { inner: None };
        assert(empty.deep_view() == None::<T::V>);
        assert(<T as BoxContainer<T, SingleBoxPlaceholder<T>>>::vacant() == None::<T::V>);
        empty
    }
}

impl<T: BoxRead> BoxContainer<T, Option<T>> for Option<T> {
    open spec fn vacant() -> Option<T::V> {
        None
    }

    fn placeholder() -> (empty: Option<T>) {
        let empty: Option<T> = None;
        assert(empty.deep_view() == None::<T::V>);
        assert(<Option<T> as BoxContainer<T, Option<T>>>::vacant() == None::<T::V>);
        empty
    }
}

impl<T: BoxRead> BoxContainer<T, Vec<T>> for Vec<T> {
    open spec fn vacant() -> Seq<T::V> {
        Seq::empty()
    }

    fn placeholder() -> (empty: Vec<T>) {
        let empty: Vec<T> = Vec::new();
        assert(empty.deep_view() =~= Seq::<T::V>::empty());
        assert(<Vec<T> as BoxContainer<T, Vec<T>>>::vacant() == Seq::<T::V>::empty());
        empty
    }
}

} // verus!
