//! Node lists live in an arena of the `toolshed` crate: a list is built by
//! appending to a builder, whose cells are allocated in the arena once and
//! never moved, and is then read as an immutable `List`.
use vstd::prelude::*;

use toolshed::list::{GrowableList, List, ListBuilder};
use toolshed::Arena;

use crate::ast::{
    name_view, param_view, part_view, ContractPart, IndexedParameter, NameModel, NameNode, Node,
    NodeModel, ParamModel, PartModel,
};

verus! {

/// toolshed's arena: the memory that the lists' cells and the identifiers'
/// text are allocated in, released together when it is dropped.
#[verifier::external_type_specification]
#[verifier::external_body]
pub struct ExArena(Arena);

/// toolshed's immutable linked list of arena cells, read through the names
/// below.
#[verifier::external_type_specification]
#[verifier::external_body]
#[verifier::reject_recursive_types(T)]
pub struct ExList<'arena, T>(List<'arena, T>);

/// The models of the identifier nodes a list holds, in order.
pub uninterp spec fn name_list(l: List<NameNode>) -> Seq<NameModel>;

/// The models of the parameter nodes a list holds, in order.
pub uninterp spec fn param_list(l: List<Node<IndexedParameter>>) -> Seq<NodeModel<ParamModel>>;

/// The models of the contract-part nodes a list holds, in order.
pub uninterp spec fn part_list(l: List<Node<ContractPart>>) -> Seq<NodeModel<PartModel>>;

/// Relies on `Arena::alloc_slice`: a copy of `bytes` in the arena.
#[verifier::external_body]
pub(crate) fn alloc_bytes<'a>(arena: &'a Arena, bytes: &[u8]) -> (r: &'a [u8])
    ensures
        r@ == bytes@,
{
    arena.alloc_slice(bytes)
}

/// Relies on `List::empty`: a list with no elements.
#[verifier::external_body]
pub(crate) fn empty_names<'a>() -> (l: List<'a, NameNode<'a>>)
    ensures
        name_list(l) == Seq::<NameModel>::empty(),
{
    List::empty()
}

/// Relies on `List::empty`: a list with no elements.
#[verifier::external_body]
pub(crate) fn empty_params<'a>() -> (l: List<'a, Node<IndexedParameter<'a>>>)
    ensures
        param_list(l) == Seq::<NodeModel<ParamModel>>::empty(),
{
    List::empty()
}

/// A non-empty list of identifier nodes under construction.
#[verifier::external_body]
pub struct NameListBuilder<'a> {
    inner: ListBuilder<'a, NameNode<'a>>,
}

/// The models of the identifier nodes pushed so far, in order.
pub uninterp spec fn names_built(b: NameListBuilder) -> Seq<NameModel>;

impl<'a> NameListBuilder<'a> {
    /// Relies on `ListBuilder::new`: a list of the first element alone.
    #[verifier::external_body]
    pub(crate) fn new(arena: &'a Arena, first: NameNode<'a>) -> (b: NameListBuilder<'a>)
        ensures
            names_built(b) == seq![name_view(first)],
    {
        NameListBuilder { inner: ListBuilder::new(arena, first) }
    }

    /// Relies on `ListBuilder::push`: appends after the last element.
    #[verifier::external_body]
    pub(crate) fn push(&mut self, arena: &'a Arena, item: NameNode<'a>)
        ensures
            names_built(*final(self)) == names_built(*old(self)).push(name_view(item)),
    {
        self.inner.push(arena, item)
    }

    /// Relies on `ListBuilder::as_list`: the list of the elements pushed.
    #[verifier::external_body]
    pub(crate) fn as_list(self) -> (l: List<'a, NameNode<'a>>)
        ensures
            name_list(l) == names_built(self),
    {
        self.inner.as_list()
    }
}

/// A non-empty list of parameter nodes under construction.
#[verifier::external_body]
pub struct ParamListBuilder<'a> {
    inner: ListBuilder<'a, Node<IndexedParameter<'a>>>,
}

/// The models of the parameter nodes pushed so far, in order.
pub uninterp spec fn params_built(b: ParamListBuilder) -> Seq<NodeModel<ParamModel>>;

impl<'a> ParamListBuilder<'a> {
    /// Relies on `ListBuilder::new`: a list of the first element alone.
    #[verifier::external_body]
    pub(crate) fn new(arena: &'a Arena, first: Node<IndexedParameter<'a>>) -> (b: ParamListBuilder<'a>)
        ensures
            params_built(b) == seq![param_view(first)],
    {
        ParamListBuilder { inner: ListBuilder::new(arena, first) }
    }

    /// Relies on `ListBuilder::push`: appends after the last element.
    #[verifier::external_body]
    pub(crate) fn push(&mut self, arena: &'a Arena, item: Node<IndexedParameter<'a>>)
        ensures
            params_built(*final(self)) == params_built(*old(self)).push(param_view(item)),
    {
        self.inner.push(arena, item)
    }

    /// Relies on `ListBuilder::as_list`: the list of the elements pushed.
    #[verifier::external_body]
    pub(crate) fn as_list(self) -> (l: List<'a, Node<IndexedParameter<'a>>>)
        ensures
            param_list(l) == params_built(self),
    {
        self.inner.as_list()
    }
}

/// A possibly empty list of contract-part nodes under construction.
#[verifier::external_body]
pub struct PartListBuilder<'a> {
    inner: GrowableList<'a, Node<ContractPart<'a>>>,
}

/// The models of the contract-part nodes pushed so far, in order.
pub uninterp spec fn parts_built(b: PartListBuilder) -> Seq<NodeModel<PartModel>>;

impl<'a> PartListBuilder<'a> {
    /// Relies on `GrowableList::new`: no elements yet.
    #[verifier::external_body]
    pub(crate) fn new() -> (b: PartListBuilder<'a>)
        ensures
            parts_built(b) == Seq::<NodeModel<PartModel>>::empty(),
    {
        PartListBuilder { inner: GrowableList::new() }
    }

    /// Relies on `GrowableList::push`: appends after the last element.
    #[verifier::external_body]
    pub(crate) fn push(&mut self, arena: &'a Arena, item: Node<ContractPart<'a>>)
        ensures
            parts_built(*final(self)) == parts_built(*old(self)).push(part_view(item)),
    {
        self.inner.push(arena, item)
    }

    /// Relies on `GrowableList::as_list`: the list of the elements pushed,
    /// empty where none was.
    #[verifier::external_body]
    pub(crate) fn as_list(self) -> (l: List<'a, Node<ContractPart<'a>>>)
        ensures
            part_list(l) == parts_built(self),
    {
        self.inner.as_list()
    }
}

} // verus!
