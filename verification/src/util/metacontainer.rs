//! The metadata container: what passes attach to a node, one value of a
//! kind at most.

use vstd::prelude::*;
use crate::passes::scope_pass::TypeInfo;

verus! {

/// The kinds of metadata that a node can carry.
#[derive(Debug, Clone, Copy, PartialEq, Eq, Structural)]
pub enum MetaKind {
    /// The type of the node, as a [`TypeInfo`].
    TypeInfo,
    /// A plain number, as an `i32`.
    Number,
}

/// Mathematical model of one attached value.
pub enum MetaValue {
    TypeInfo(Seq<char>),
    Number(i32),
}

/// A type whose values can be attached to a node. Each such type stands
/// for one kind of metadata.
pub trait Metadata: Sized {
    /// The kind that values of this type are stored under.
    spec fn kind() -> MetaKind;

    /// The model of this value, as the container's view holds it.
    spec fn model(&self) -> MetaValue;

    /// Stores `self` in `container`, in place of the value of its kind.
    fn attach(self, container: &mut MetaContainer)
        ensures
            final(container)@ == old(container)@.insert(Self::kind(), self.model()),
    ;

    /// The value of this type's kind in `container`, if it holds one.
    fn find(container: &MetaContainer) -> (found: Option<&Self>)
        ensures
            found is Some <==> container@.contains_key(Self::kind()),
            found matches Some(value) ==> value.model() == container@[Self::kind()],
    ;
}

/// Container for the metadata of one node. Its view maps each kind to the
/// value last inserted under it.
#[derive(Debug)]
pub struct MetaContainer {
    type_info: Option<TypeInfo>,
    number: Option<i32>,
}

impl View for MetaContainer {
    type V = Map<MetaKind, MetaValue>;

    closed spec fn view(&self) -> Map<MetaKind, MetaValue> {
        let types = match self.type_info {
            Some(info) => map![MetaKind::TypeInfo => MetaValue::TypeInfo(info.ty@)],
            None => Map::empty(),
        };
        match self.number {
            Some(n) => types.insert(MetaKind::Number, MetaValue::Number(n)),
            None => types,
        }
    }
}

impl Metadata for TypeInfo {
    open spec fn kind() -> MetaKind {
        MetaKind::TypeInfo
    }

    open spec fn model(&self) -> MetaValue {
        MetaValue::TypeInfo(self.ty@)
    }

    fn attach(self, container: &mut MetaContainer) {
        container.type_info = Some(self);
        assert(container@ =~= old(container)@.insert(Self::kind(), self.model()));
    }

    fn find(container: &MetaContainer) -> (found: Option<&Self>) {
        container.type_info.as_ref()
    }
}

impl Metadata for i32 {
    open spec fn kind() -> MetaKind {
        MetaKind::Number
    }

    open spec fn model(&self) -> MetaValue {
        MetaValue::Number(*self)
    }

    fn attach(self, container: &mut MetaContainer) {
        container.number = Some(self);
        assert(container@ =~= old(container)@.insert(Self::kind(), self.model()));
    }

    fn find(container: &MetaContainer) -> (found: Option<&Self>) {
        container.number.as_ref()
    }
}

impl MetaContainer {
    /// The container that holds nothing.
    pub closed spec fn empty() -> Self {
        Self { type_info: None, number: None }
    }

    /// The empty container holds no kind.
    pub proof fn lemma_empty()
        ensures
            Self::empty()@ == Map::<MetaKind, MetaValue>::empty(),
    {
        assert(Self::empty()@ =~= Map::<MetaKind, MetaValue>::empty());
    }

    /// A container that holds nothing.
    pub fn new() -> (container: Self)
        ensures
            container == Self::empty(),
            container@ == Map::<MetaKind, MetaValue>::empty(),
    {
        let container = Self { type_info: None, number: None };
        assert(container@ =~= Map::<MetaKind, MetaValue>::empty());
        container
    }

    /// The value of kind `T`, or `None` where none was inserted.
    pub fn get<T: Metadata>(&self) -> (found: Option<&T>)
        ensures
            found is Some <==> self@.contains_key(T::kind()),
            found matches Some(value) ==> value.model() == self@[T::kind()],
    {
        T::find(self)
    }

    /// Stores `value` under its kind, in place of what was there.
    pub fn insert<T: Metadata>(&mut self, value: T)
        ensures
            final(self)@ == old(self)@.insert(T::kind(), value.model()),
    {
        value.attach(self)
    }
}

impl Clone for MetaContainer {
    fn clone(&self) -> (copy: Self)
        ensures
            copy@ == self@,
    {
        Self {
            type_info: match &self.type_info {
                Some(info) => Some(info.clone()),
                None => None,
            },
            number: self.number,
        }
    }
}

} // verus!
