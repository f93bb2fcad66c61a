use vstd::prelude::*;

use toolshed::list::List;

use crate::list::{name_list, param_list, part_list};
use crate::token::ElementaryTypeName;

verus! {

/// A parsed value together with the byte range `[start, end)` it was read from.
#[derive(Clone, Copy, Debug, PartialEq, Eq)]
pub struct Node<T> {
    pub start: usize,
    pub end: usize,
    pub value: T,
}

/// An identifier node; its value is the identifier's source text, held in
/// the arena.
pub type NameNode<'a> = Node<&'a [u8]>;

#[derive(Clone, Copy, Debug, PartialEq, Eq, Structural)]
pub enum Visibility {
    Unspecified,
    Public,
    Internal,
    Private,
    Constant,
}

#[derive(Clone, Copy, Debug, PartialEq)]
pub struct ContractDefinition<'a> {
    pub name: NameNode<'a>,
    pub inherits: List<'a, NameNode<'a>>,
    pub body: List<'a, Node<ContractPart<'a>>>,
}

#[derive(Clone, Copy, Debug, PartialEq)]
pub enum ContractPart<'a> {
    EventDefinition(EventDefinition<'a>),
    StateVariableDeclaration(StateVariableDeclaration<'a>),
}

#[derive(Clone, Copy, Debug, PartialEq)]
pub struct EventDefinition<'a> {
    pub anonymous: bool,
    pub name: NameNode<'a>,
    pub params: List<'a, Node<IndexedParameter<'a>>>,
}

#[derive(Clone, Copy, Debug, PartialEq, Eq)]
pub struct IndexedParameter<'a> {
    pub indexed: bool,
    pub ty: Node<ElementaryTypeName>,
    pub name: NameNode<'a>,
}

/// A state variable; `init` holds an initializer's source text, which this
/// grammar never reads, so it is always `None` here.
#[derive(Clone, Copy, Debug, PartialEq, Eq)]
pub struct StateVariableDeclaration<'a> {
    pub ty: Node<ElementaryTypeName>,
    pub visibility: Visibility,
    pub name: NameNode<'a>,
    pub init: Option<NameNode<'a>>,
}

// Mathematical models of the tree: the same shape, with sequences for lists.
pub struct NodeModel<T> {
    pub start: usize,
    pub end: usize,
    pub value: T,
}

pub type NameModel = NodeModel<Seq<u8>>;

pub type TypeModel = NodeModel<ElementaryTypeName>;

pub struct ParamModel {
    pub indexed: bool,
    pub ty: TypeModel,
    pub name: NameModel,
}

pub enum PartModel {
    Event { anonymous: bool, name: NameModel, params: Seq<NodeModel<ParamModel>> },
    StateVariable {
        ty: TypeModel,
        visibility: Visibility,
        name: NameModel,
        init: Option<NameModel>,
    },
}

pub struct ContractModel {
    pub name: NameModel,
    pub inherits: Seq<NameModel>,
    pub body: Seq<NodeModel<PartModel>>,
}

pub open spec fn name_view(n: NameNode) -> NameModel {
    NodeModel { start: n.start, end: n.end, value: n.value@ }
}

pub open spec fn type_view(n: Node<ElementaryTypeName>) -> TypeModel {
    NodeModel { start: n.start, end: n.end, value: n.value }
}

pub open spec fn names_view(l: List<NameNode>) -> Seq<NameModel> {
    name_list(l)
}

pub open spec fn param_view(n: Node<IndexedParameter>) -> NodeModel<ParamModel> {
    NodeModel {
        start: n.start,
        end: n.end,
        value: ParamModel {
            indexed: n.value.indexed,
            ty: type_view(n.value.ty),
            name: name_view(n.value.name),
        },
    }
}

pub open spec fn params_view(l: List<Node<IndexedParameter>>) -> Seq<NodeModel<ParamModel>> {
    param_list(l)
}

pub open spec fn part_view(n: Node<ContractPart>) -> NodeModel<PartModel> {
    NodeModel {
        start: n.start,
        end: n.end,
        value: match n.value {
            ContractPart::EventDefinition(e) => PartModel::Event {
                anonymous: e.anonymous,
                name: name_view(e.name),
                params: params_view(e.params),
            },
            ContractPart::StateVariableDeclaration(v) => PartModel::StateVariable {
                ty: type_view(v.ty),
                visibility: v.visibility,
                name: name_view(v.name),
                init: match v.init {
                    Some(i) => Some(name_view(i)),
                    None => None,
                },
            },
        },
    }
}

pub open spec fn parts_view(l: List<Node<ContractPart>>) -> Seq<NodeModel<PartModel>> {
    part_list(l)
}

pub open spec fn contract_view(n: Node<ContractDefinition>) -> NodeModel<ContractModel> {
    NodeModel {
        start: n.start,
        end: n.end,
        value: ContractModel {
            name: name_view(n.value.name),
            inherits: names_view(n.value.inherits),
            body: parts_view(n.value.body),
        },
    }
}

pub open spec fn contract_models(s: Seq<Node<ContractDefinition>>) -> Seq<NodeModel<ContractModel>> {
    s.map_values(|n: Node<ContractDefinition>| contract_view(n))
}

} // verus!
