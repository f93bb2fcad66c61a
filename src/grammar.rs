//! The grammar as spec functions over the token sequence. Each one reads
//! from position `p` and gives the construct's model and the position after
//! the last token it consumed, or `None` where a required token is missing.
use vstd::prelude::*;

use crate::ast::{ContractModel, NameModel, NodeModel, ParamModel, PartModel, TypeModel, Visibility};
use crate::parser::ParseError;
use crate::token::{kind_at, Token, TokenKind};

verus! {

/// The identifier token at `p` as a node whose value is its source text.
pub open spec fn spec_name(src: Seq<u8>, toks: Seq<Token>, p: int) -> Option<(NameModel, int)> {
    if kind_at(toks, p) == TokenKind::Identifier {
        Some((
            NodeModel {
                start: toks[p].start,
                end: toks[p].end,
                value: src.subrange(toks[p].start as int, toks[p].end as int),
            },
            p + 1,
        ))
    } else {
        None
    }
}

/// The elementary type name at `p`; nothing is consumed when there is none.
pub open spec fn spec_type_name(toks: Seq<Token>, p: int) -> Option<(TypeModel, int)> {
    match kind_at(toks, p) {
        TokenKind::ElementaryType(t) => Some(
            (NodeModel { start: toks[p].start, end: toks[p].end, value: t }, p + 1),
        ),
        _ => None,
    }
}

/// An optional visibility keyword; `Unspecified` consumes nothing.
pub open spec fn spec_visibility(toks: Seq<Token>, p: int) -> (Visibility, int) {
    match kind_at(toks, p) {
        TokenKind::KeywordPublic => (Visibility::Public, p + 1),
        TokenKind::KeywordInternal => (Visibility::Internal, p + 1),
        TokenKind::KeywordPrivate => (Visibility::Private, p + 1),
        TokenKind::KeywordConstant => (Visibility::Constant, p + 1),
        _ => (Visibility::Unspecified, p),
    }
}

/// `type [indexed] name`, spanning from the type to the name.
pub open spec fn spec_indexed_parameter(src: Seq<u8>, toks: Seq<Token>, p: int) -> Option<
    (NodeModel<ParamModel>, int),
> {
    match spec_type_name(toks, p) {
        None => None,
        Some((t, p1)) => {
            let indexed = kind_at(toks, p1) == TokenKind::KeywordIndexed;
            let p2 = if indexed {
                p1 + 1
            } else {
                p1
            };
            match spec_name(src, toks, p2) {
                None => None,
                Some((n, p3)) => Some(
                    (
                        NodeModel {
                            start: t.start,
                            end: n.end,
                            value: ParamModel { indexed, ty: t, name: n },
                        },
                        p3,
                    ),
                ),
            }
        },
    }
}

/// Zero or more `, parameter`; after a comma a parameter is required.
pub open spec fn spec_params_tail(src: Seq<u8>, toks: Seq<Token>, p: int) -> Option<
    (Seq<NodeModel<ParamModel>>, int),
>
    decreases toks.len() - p,
{
    if kind_at(toks, p) == TokenKind::Comma {
        match spec_indexed_parameter(src, toks, p + 1) {
            None => None,
            Some((x, q)) => if p < q <= toks.len() {
                match spec_params_tail(src, toks, q) {
                    None => None,
                    Some((xs, r)) => Some((seq![x] + xs, r)),
                }
            } else {
                None
            },
        }
    } else {
        Some((Seq::empty(), p))
    }
}

/// The parameters between `(` and `)`: none where no type name follows,
/// else one and then its tail.
pub open spec fn spec_params(src: Seq<u8>, toks: Seq<Token>, p: int) -> Option<
    (Seq<NodeModel<ParamModel>>, int),
> {
    match spec_indexed_parameter(src, toks, p) {
        None => if spec_type_name(toks, p) is None {
            Some((Seq::empty(), p))
        } else {
            None
        },
        Some((x, q)) => match spec_params_tail(src, toks, q) {
            None => None,
            Some((xs, r)) => Some((seq![x] + xs, r)),
        },
    }
}

/// `event name ( params ) [anonymous] ;`
pub open spec fn spec_event(src: Seq<u8>, toks: Seq<Token>, p: int) -> Option<
    (NodeModel<PartModel>, int),
> {
    match spec_name(src, toks, p + 1) {
        None => None,
        Some((n, p2)) => if kind_at(toks, p2) != TokenKind::ParenOpen {
            None
        } else {
            match spec_params(src, toks, p2 + 1) {
                None => None,
                Some((params, r)) => if kind_at(toks, r) != TokenKind::ParenClose {
                    None
                } else {
                    let anonymous = kind_at(toks, r + 1) == TokenKind::KeywordAnonymous;
                    let s = if anonymous {
                        r + 2
                    } else {
                        r + 1
                    };
                    if kind_at(toks, s) != TokenKind::Semicolon {
                        None
                    } else {
                        Some(
                            (
                                NodeModel {
                                    start: toks[p].start,
                                    end: toks[s].end,
                                    value: PartModel::Event { anonymous, name: n, params },
                                },
                                s + 1,
                            ),
                        )
                    }
                },
            }
        },
    }
}

/// What one step of a contract body gives.
pub enum PartStep {
    /// No part starts here: the body has ended.
    Stop,
    /// A part, and the position after it.
    Item(NodeModel<PartModel>, int),
    /// A part started but a required token is missing.
    Fail,
}

/// An event, or `type [visibility] name ;`.
pub open spec fn spec_contract_part(src: Seq<u8>, toks: Seq<Token>, p: int) -> PartStep {
    if kind_at(toks, p) == TokenKind::DeclarationEvent {
        match spec_event(src, toks, p) {
            None => PartStep::Fail,
            Some((m, q)) => PartStep::Item(m, q),
        }
    } else {
        match spec_type_name(toks, p) {
            None => PartStep::Stop,
            Some((t, p1)) => {
                let (visibility, p2) = spec_visibility(toks, p1);
                match spec_name(src, toks, p2) {
                    None => PartStep::Fail,
                    Some((n, p3)) => if kind_at(toks, p3) != TokenKind::Semicolon {
                        PartStep::Fail
                    } else {
                        PartStep::Item(
                            NodeModel {
                                start: t.start,
                                end: toks[p3].end,
                                value: PartModel::StateVariable {
                                    ty: t,
                                    visibility,
                                    name: n,
                                    init: None,
                                },
                            },
                            p3 + 1,
                        )
                    },
                }
            },
        }
    }
}

/// The parts of a contract body, up to the first position where none starts.
pub open spec fn spec_parts(src: Seq<u8>, toks: Seq<Token>, p: int) -> Option<
    (Seq<NodeModel<PartModel>>, int),
>
    decreases toks.len() - p,
{
    match spec_contract_part(src, toks, p) {
        PartStep::Stop => Some((Seq::empty(), p)),
        PartStep::Fail => None,
        PartStep::Item(m, q) => if p < q <= toks.len() {
            match spec_parts(src, toks, q) {
                None => None,
                Some((ms, r)) => Some((seq![m] + ms, r)),
            }
        } else {
            None
        },
    }
}

/// Zero or more `, name`; after a comma a name is required.
pub open spec fn spec_inherits_tail(src: Seq<u8>, toks: Seq<Token>, p: int) -> Option<
    (Seq<NameModel>, int),
>
    decreases toks.len() - p,
{
    if kind_at(toks, p) == TokenKind::Comma {
        match spec_name(src, toks, p + 1) {
            None => None,
            Some((n, q)) => if p < q <= toks.len() {
                match spec_inherits_tail(src, toks, q) {
                    None => None,
                    Some((ns, r)) => Some((seq![n] + ns, r)),
                }
            } else {
                None
            },
        }
    } else {
        Some((Seq::empty(), p))
    }
}

/// An optional `is name, name, ...` clause.
pub open spec fn spec_inherits(src: Seq<u8>, toks: Seq<Token>, p: int) -> Option<
    (Seq<NameModel>, int),
> {
    if kind_at(toks, p) == TokenKind::KeywordIs {
        match spec_name(src, toks, p + 1) {
            None => None,
            Some((n, q)) => match spec_inherits_tail(src, toks, q) {
                None => None,
                Some((ns, r)) => Some((seq![n] + ns, r)),
            },
        }
    } else {
        Some((Seq::empty(), p))
    }
}

/// `contract name [is names] { parts }`, spanning from the keyword to `}`.
#[verifier::opaque]
pub open spec fn spec_contract(src: Seq<u8>, toks: Seq<Token>, p: int) -> Option<
    (NodeModel<ContractModel>, int),
> {
    match spec_name(src, toks, p + 1) {
        None => None,
        Some((n, p2)) => match spec_inherits(src, toks, p2) {
            None => None,
            Some((inherits, r)) => if kind_at(toks, r) != TokenKind::BraceOpen {
                None
            } else {
                match spec_parts(src, toks, r + 1) {
                    None => None,
                    Some((body, s)) => if kind_at(toks, s) != TokenKind::BraceClose {
                        None
                    } else {
                        Some(
                            (
                                NodeModel {
                                    start: toks[p].start,
                                    end: toks[s].end,
                                    value: ContractModel { name: n, inherits, body },
                                },
                                s + 1,
                            ),
                        )
                    },
                }
            },
        },
    }
}

/// A source unit: contract definitions one after another up to the end.
pub open spec fn spec_source_unit(src: Seq<u8>, toks: Seq<Token>, p: int) -> Option<
    Seq<NodeModel<ContractModel>>,
>
    decreases toks.len() - p,
{
    if kind_at(toks, p) == TokenKind::KeywordContract {
        match spec_contract(src, toks, p) {
            None => None,
            Some((c, q)) => if p < q <= toks.len() {
                match spec_source_unit(src, toks, q) {
                    None => None,
                    Some(cs) => Some(seq![c] + cs),
                }
            } else {
                None
            },
        }
    } else if p >= toks.len() {
        Some(Seq::empty())
    } else {
        None
    }
}

// Where a construct fails: the position of the token the error is recorded
// at, and the kind that was required there, where a single one was. Each is
// meaningful where the matching function above gives `None` (or `Fail`).

/// The diagnostic for a failure at position `at` of `toks`.
pub open spec fn error_at(src: Seq<u8>, toks: Seq<Token>, at: int, expected: Option<TokenKind>) -> ParseError {
    if 0 <= at < toks.len() {
        ParseError { start: toks[at].start, end: toks[at].end, found: toks[at].kind, expected }
    } else {
        ParseError {
            start: src.len() as usize,
            end: src.len() as usize,
            found: TokenKind::EndOfProgram,
            expected,
        }
    }
}

pub open spec fn fail_indexed_parameter(src: Seq<u8>, toks: Seq<Token>, p: int) -> (int, Option<TokenKind>) {
    let p1 = p + 1;
    let p2 = if kind_at(toks, p1) == TokenKind::KeywordIndexed {
        p1 + 1
    } else {
        p1
    };
    (p2, Some(TokenKind::Identifier))
}

pub open spec fn fail_params_tail(src: Seq<u8>, toks: Seq<Token>, p: int) -> (int, Option<TokenKind>)
    decreases toks.len() - p,
{
    match spec_indexed_parameter(src, toks, p + 1) {
        None => if spec_type_name(toks, p + 1) is None {
            (p + 1, None)
        } else {
            fail_indexed_parameter(src, toks, p + 1)
        },
        Some((_, q)) => if p < q <= toks.len() {
            fail_params_tail(src, toks, q)
        } else {
            (p, None)
        },
    }
}

pub open spec fn fail_params(src: Seq<u8>, toks: Seq<Token>, p: int) -> (int, Option<TokenKind>) {
    match spec_indexed_parameter(src, toks, p) {
        None => fail_indexed_parameter(src, toks, p),
        Some((_, q)) => fail_params_tail(src, toks, q),
    }
}

pub open spec fn fail_event(src: Seq<u8>, toks: Seq<Token>, p: int) -> (int, Option<TokenKind>) {
    match spec_name(src, toks, p + 1) {
        None => (p + 1, Some(TokenKind::Identifier)),
        Some((_, p2)) => if kind_at(toks, p2) != TokenKind::ParenOpen {
            (p2, Some(TokenKind::ParenOpen))
        } else {
            match spec_params(src, toks, p2 + 1) {
                None => fail_params(src, toks, p2 + 1),
                Some((_, r)) => if kind_at(toks, r) != TokenKind::ParenClose {
                    (r, Some(TokenKind::ParenClose))
                } else {
                    let s = if kind_at(toks, r + 1) == TokenKind::KeywordAnonymous {
                        r + 2
                    } else {
                        r + 1
                    };
                    (s, Some(TokenKind::Semicolon))
                },
            }
        },
    }
}

pub open spec fn fail_contract_part(src: Seq<u8>, toks: Seq<Token>, p: int) -> (int, Option<TokenKind>) {
    if kind_at(toks, p) == TokenKind::DeclarationEvent {
        fail_event(src, toks, p)
    } else {
        let (_, p2) = spec_visibility(toks, p + 1);
        match spec_name(src, toks, p2) {
            None => (p2, Some(TokenKind::Identifier)),
            Some((_, p3)) => (p3, Some(TokenKind::Semicolon)),
        }
    }
}

pub open spec fn fail_parts(src: Seq<u8>, toks: Seq<Token>, p: int) -> (int, Option<TokenKind>)
    decreases toks.len() - p,
{
    match spec_contract_part(src, toks, p) {
        PartStep::Item(_, q) => if p < q <= toks.len() {
            fail_parts(src, toks, q)
        } else {
            (p, None)
        },
        _ => fail_contract_part(src, toks, p),
    }
}

pub open spec fn fail_inherits_tail(src: Seq<u8>, toks: Seq<Token>, p: int) -> (int, Option<TokenKind>)
    decreases toks.len() - p,
{
    match spec_name(src, toks, p + 1) {
        None => (p + 1, Some(TokenKind::Identifier)),
        Some((_, q)) => if p < q <= toks.len() {
            fail_inherits_tail(src, toks, q)
        } else {
            (p, None)
        },
    }
}

pub open spec fn fail_inherits(src: Seq<u8>, toks: Seq<Token>, p: int) -> (int, Option<TokenKind>) {
    match spec_name(src, toks, p + 1) {
        None => (p + 1, Some(TokenKind::Identifier)),
        Some((_, q)) => fail_inherits_tail(src, toks, q),
    }
}

pub open spec fn fail_contract(src: Seq<u8>, toks: Seq<Token>, p: int) -> (int, Option<TokenKind>) {
    match spec_name(src, toks, p + 1) {
        None => (p + 1, Some(TokenKind::Identifier)),
        Some((_, p2)) => match spec_inherits(src, toks, p2) {
            None => fail_inherits(src, toks, p2),
            Some((_, r)) => if kind_at(toks, r) != TokenKind::BraceOpen {
                (r, Some(TokenKind::BraceOpen))
            } else {
                match spec_parts(src, toks, r + 1) {
                    None => fail_parts(src, toks, r + 1),
                    Some((_, s)) => (s, Some(TokenKind::BraceClose)),
                }
            },
        },
    }
}

pub open spec fn fail_source_unit(src: Seq<u8>, toks: Seq<Token>, p: int) -> (int, Option<TokenKind>)
    decreases toks.len() - p,
{
    if kind_at(toks, p) == TokenKind::KeywordContract {
        match spec_contract(src, toks, p) {
            None => fail_contract(src, toks, p),
            Some((_, q)) => if p < q <= toks.len() {
                fail_source_unit(src, toks, q)
            } else {
                (p, None)
            },
        }
    } else {
        (p, Some(TokenKind::KeywordContract))
    }
}

} // verus!
