use vstd::prelude::*;

use toolshed::list::List;
use toolshed::Arena;

use crate::ast::{
    contract_models, contract_view, name_view, param_view, part_view, type_view,
    ContractDefinition, ContractModel, ContractPart, EventDefinition, IndexedParameter, NameModel,
    NameNode, Node, NodeModel, ParamModel, PartModel, StateVariableDeclaration, Visibility,
};
use crate::grammar::{
    error_at, fail_contract, fail_contract_part, fail_event, fail_indexed_parameter, fail_inherits,
    fail_inherits_tail, fail_params, fail_params_tail, fail_parts, fail_source_unit,
    spec_contract, spec_contract_part, spec_event, spec_indexed_parameter, spec_inherits,
    spec_inherits_tail, spec_name, spec_params, spec_params_tail, spec_parts, spec_source_unit,
    spec_type_name, spec_visibility, PartStep,
};
use crate::lexer::{lexed, spec_tokens, tokenize};
use crate::list::{
    alloc_bytes, empty_names, empty_params, name_list, names_built, param_list, params_built,
    part_list, parts_built, NameListBuilder, ParamListBuilder, PartListBuilder,
};
use crate::token::{kind_at, tokens_wf, ElementaryTypeName, Token, TokenKind};

verus! {

/// A diagnostic: the token found where the grammar could not go on, and the
/// kind it required there, where a single one was.
#[derive(Clone, Copy, Debug, PartialEq, Eq, Structural)]
pub struct ParseError {
    pub start: usize,
    pub end: usize,
    pub found: TokenKind,
    pub expected: Option<TokenKind>,
}

/// What one step over a contract body gives.
#[derive(Clone, Copy, Debug, PartialEq)]
pub enum PartResult<'a> {
    /// No part starts at the cursor: the body has ended.
    End,
    Part(Node<ContractPart<'a>>),
    /// A part started but could not be completed; an error was recorded.
    Failed,
}

/// A cursor over the tokens of one source text, with the errors met so far.
pub struct Parser<'a> {
    pub arena: &'a Arena,
    pub src: Vec<u8>,
    pub tokens: Vec<Token>,
    pub pos: usize,
    pub errors: Vec<ParseError>,
}

/// Copies `src[start..end]`.
fn copy_range(src: &Vec<u8>, start: usize, end: usize) -> (r: Vec<u8>)
    requires
        start <= end <= src@.len(),
    ensures
        r@ == src@.subrange(start as int, end as int),
{
    let mut r: Vec<u8> = Vec::new();
    let mut i: usize = start;
    while i < end
        invariant
            start <= i <= end <= src@.len(),
            r@ == src@.subrange(start as int, i as int),
        decreases end - i,
    {
        r.push(src[i]);
        assert(r@ =~= src@.subrange(start as int, i + 1));
        i = i + 1;
    }
    r
}

impl<'a> Parser<'a> {
    pub open spec fn wf(&self) -> bool {
        &&& tokens_wf(self.src@.len(), self.tokens@)
        &&& self.pos <= self.tokens@.len()
    }

    /// Same source and tokens, still well formed.
    pub open spec fn same_input(&self, before: &Self) -> bool {
        &&& self.src@ == before.src@
        &&& self.tokens@ == before.tokens@
        &&& self.wf()
    }

    /// Exactly one error was recorded after those already there.
    /// One error was recorded after those already there: the one that
    /// `error_at` gives for failure `f`.
    pub open spec fn failed_at(&self, before: &Self, f: (int, Option<TokenKind>)) -> bool {
        &&& self.one_more_error(before)
        &&& self.errors@.last() == error_at(before.src@, before.tokens@, f.0, f.1)
    }

    pub open spec fn one_more_error(&self, before: &Self) -> bool {
        &&& self.errors@.len() == before.errors@.len() + 1
        &&& self.errors@.subrange(0, before.errors@.len() as int) == before.errors@
    }

    pub fn from_tokens(arena: &'a Arena, src: Vec<u8>, tokens: Vec<Token>) -> (p: Parser<'a>)
        requires
            tokens_wf(src@.len(), tokens@),
        ensures
            p.wf(),
            p.src@ == src@,
            p.tokens@ == tokens@,
            p.pos == 0,
            p.errors@.len() == 0,
    {
        Parser { arena, src, tokens, pos: 0, errors: Vec::new() }
    }

    /// A parser at the start of `src`, over its tokens.
    pub fn new(arena: &'a Arena, src: &[u8]) -> (p: Parser<'a>)
        ensures
            p.wf(),
            p.src@ == src@,
            p.tokens@ == spec_tokens(src@),
            lexed(src@, p.tokens@),
            p.pos == 0,
            p.errors@.len() == 0,
    {
        let tokens = tokenize(src);
        Parser::from_tokens(arena, vstd::slice::slice_to_vec(src), tokens)
    }

    fn kind(&self) -> (k: TokenKind)
        requires
            self.wf(),
        ensures
            k == kind_at(self.tokens@, self.pos as int),
    {
        if self.pos < self.tokens.len() {
            self.tokens[self.pos].kind
        } else {
            TokenKind::EndOfProgram
        }
    }

    /// Whether the token at the cursor is of kind `k`.
    fn at(&self, k: TokenKind) -> (b: bool)
        requires
            self.wf(),
            k != TokenKind::EndOfProgram,
        ensures
            b == (kind_at(self.tokens@, self.pos as int) == k),
            b ==> self.pos < self.tokens@.len() && self.pos < usize::MAX,
    {
        self.pos < self.tokens.len() && self.tokens[self.pos].kind == k
    }

    /// Records an error at the cursor.
    fn error(&mut self, expected: Option<TokenKind>)
        requires
            old(self).wf(),
        ensures
            final(self).same_input(old(self)),
            final(self).pos == old(self).pos,
            final(self).failed_at(old(self), (old(self).pos as int, expected)),
    {
        let e = if self.pos < self.tokens.len() {
            let t = self.tokens[self.pos];
            ParseError { start: t.start, end: t.end, found: t.kind, expected }
        } else {
            let n = self.src.len();
            ParseError { start: n, end: n, found: TokenKind::EndOfProgram, expected }
        };
        self.errors.push(e);
        assert(self.errors@.subrange(0, old(self).errors@.len() as int) =~= old(self).errors@);
    }

    /// Consumes the token at the cursor if it is of kind `k`.
    fn allow(&mut self, k: TokenKind) -> (b: bool)
        requires
            old(self).wf(),
            k != TokenKind::EndOfProgram,
        ensures
            final(self).same_input(old(self)),
            final(self).errors@ == old(self).errors@,
            b == (kind_at(old(self).tokens@, old(self).pos as int) == k),
            final(self).pos == if b {
                old(self).pos + 1
            } else {
                old(self).pos as int
            },
    {
        if self.at(k) {
            self.pos = self.pos + 1;
            true
        } else {
            false
        }
    }

    /// Consumes a token of kind `k` and gives its end offset, or records an error.
    fn expect_end(&mut self, k: TokenKind) -> (r: Option<usize>)
        requires
            old(self).wf(),
            k != TokenKind::EndOfProgram,
        ensures
            final(self).same_input(old(self)),
            kind_at(old(self).tokens@, old(self).pos as int) == k ==> {
                &&& r == Some(old(self).tokens@[old(self).pos as int].end)
                &&& final(self).pos == old(self).pos + 1
                &&& final(self).errors@ == old(self).errors@
            },
            kind_at(old(self).tokens@, old(self).pos as int) != k ==> {
                &&& r is None
                &&& final(self).failed_at(old(self), (old(self).pos as int, Some(k)))
            },
    {
        if self.at(k) {
            let end = self.tokens[self.pos].end;
            self.pos = self.pos + 1;
            Some(end)
        } else {
            self.error(Some(k));
            None
        }
    }

    /// An identifier node, or an error.
    fn expect_name(&mut self) -> (r: Option<NameNode<'a>>)
        requires
            old(self).wf(),
        ensures
            final(self).same_input(old(self)),
            match spec_name(old(self).src@, old(self).tokens@, old(self).pos as int) {
                Some((m, q)) => {
                    &&& r is Some
                    &&& name_view(r.unwrap()) == m
                    &&& final(self).pos == q
                    &&& final(self).errors@ == old(self).errors@
                },
                None => r is None && final(self).failed_at(old(self), (old(self).pos as int, Some(TokenKind::Identifier))),
            },
    {
        if self.at(TokenKind::Identifier) {
            let t = self.tokens[self.pos];
            proof {
                let i = self.pos as int;
                assert(self.tokens@[i].start < self.tokens@[i].end);
            }
            let text = copy_range(&self.src, t.start, t.end);
            let value = alloc_bytes(self.arena, text.as_slice());
            self.pos = self.pos + 1;
            Some(Node { start: t.start, end: t.end, value })
        } else {
            self.error(Some(TokenKind::Identifier));
            None
        }
    }

    /// An elementary type name, if one is at the cursor; otherwise nothing
    /// is consumed and no error is recorded.
    pub fn elementary_type(&mut self) -> (r: Option<Node<ElementaryTypeName>>)
        requires
            old(self).wf(),
        ensures
            final(self).same_input(old(self)),
            final(self).errors@ == old(self).errors@,
            match spec_type_name(old(self).tokens@, old(self).pos as int) {
                Some((m, q)) => r is Some && type_view(r.unwrap()) == m && final(self).pos == q,
                None => r is None && final(self).pos == old(self).pos,
            },
    {
        if self.pos >= self.tokens.len() {
            return None;
        }
        let tok = self.tokens[self.pos];
        match tok.kind {
            TokenKind::ElementaryType(t) => {
                self.pos = self.pos + 1;
                Some(Node { start: tok.start, end: tok.end, value: t })
            },
            _ => None,
        }
    }

    /// An optional visibility keyword; its absence is no error.
    pub fn visibility(&mut self) -> (v: Visibility)
        requires
            old(self).wf(),
        ensures
            final(self).same_input(old(self)),
            final(self).errors@ == old(self).errors@,
            (v, final(self).pos as int) == spec_visibility(old(self).tokens@, old(self).pos as int),
    {
        if self.pos >= self.tokens.len() {
            return Visibility::Unspecified;
        }
        let v = match self.tokens[self.pos].kind {
            TokenKind::KeywordPublic => Visibility::Public,
            TokenKind::KeywordInternal => Visibility::Internal,
            TokenKind::KeywordPrivate => Visibility::Private,
            TokenKind::KeywordConstant => Visibility::Constant,
            _ => Visibility::Unspecified,
        };
        match v {
            Visibility::Unspecified => {},
            _ => {
                self.pos = self.pos + 1;
            },
        }
        v
    }

    /// `type [indexed] name`. Where no type name is at the cursor nothing is
    /// consumed and no error is recorded.
    pub fn indexed_parameter(&mut self) -> (r: Option<Node<IndexedParameter<'a>>>)
        requires
            old(self).wf(),
        ensures
            final(self).same_input(old(self)),
            match spec_indexed_parameter(old(self).src@, old(self).tokens@, old(self).pos as int) {
                Some((m, q)) => {
                    &&& r is Some
                    &&& param_view(r.unwrap()) == m
                    &&& final(self).pos == q
                    &&& old(self).pos < q
                    &&& final(self).errors@ == old(self).errors@
                },
                None => r is None && if spec_type_name(old(self).tokens@, old(self).pos as int) is None {
                    final(self).pos == old(self).pos && final(self).errors@ == old(self).errors@
                } else {
                    final(self).failed_at(old(self), fail_indexed_parameter(old(self).src@, old(self).tokens@, old(self).pos as int))
                },
            },
    {
        let ty = match self.elementary_type() {
            Some(t) => t,
            None => return None,
        };
        let indexed = self.allow(TokenKind::KeywordIndexed);
        let name = match self.expect_name() {
            Some(n) => n,
            None => return None,
        };
        Some(Node { start: ty.start, end: name.end, value: IndexedParameter { indexed, ty, name } })
    }

    /// Whether an elementary type name is at the cursor.
    fn at_type(&self) -> (b: bool)
        requires
            self.wf(),
        ensures
            b == spec_type_name(self.tokens@, self.pos as int) is Some,
    {
        if self.pos < self.tokens.len() {
            match self.tokens[self.pos].kind {
                TokenKind::ElementaryType(_) => true,
                _ => false,
            }
        } else {
            false
        }
    }

    /// The parameter list of an event, after its `(`: empty where no type
    /// name follows, else parameters separated by commas. A comma must be
    /// followed by a parameter.
    fn event_params(&mut self) -> (r: Option<List<'a, Node<IndexedParameter<'a>>>>)
        requires
            old(self).wf(),
        ensures
            final(self).same_input(old(self)),
            match spec_params(old(self).src@, old(self).tokens@, old(self).pos as int) {
                Some((ms, q)) => {
                    &&& r is Some
                    &&& param_list(r.unwrap()) == ms
                    &&& old(self).pos <= q
                    &&& final(self).pos == q
                    &&& final(self).errors@ == old(self).errors@
                },
                None => r is None && final(self).failed_at(old(self), fail_params(old(self).src@, old(self).tokens@, old(self).pos as int)),
            },
    {
        let ghost src = self.src@;
        let ghost toks = self.tokens@;
        let ghost p0 = self.pos as int;
        let starts = self.at_type();
        let first = match self.indexed_parameter() {
            Some(x) => x,
            None => {
                if starts {
                    return None;
                }
                return Some(empty_params());
            },
        };
        let mut builder = ParamListBuilder::new(self.arena, first);
        loop
            invariant
                self.same_input(old(self)),
                self.errors@ == old(self).errors@,
                src == self.src@,
                toks == self.tokens@,
                p0 == old(self).pos,
                p0 <= self.pos,
                fail_params(src, toks, p0) == fail_params_tail(src, toks, self.pos as int),
                spec_params(src, toks, p0) == match spec_params_tail(src, toks, self.pos as int) {
                    None => None,
                    Some((xs, r)) => Some((params_built(builder) + xs, r)),
                },
            ensures
                self.same_input(old(self)),
                self.errors@ == old(self).errors@,
                p0 <= self.pos,
                spec_params(src, toks, p0) == Some((params_built(builder), self.pos as int)),
            decreases toks.len() - self.pos,
        {
            if !self.allow(TokenKind::Comma) {
                assert(params_built(builder) + Seq::empty() =~= params_built(builder));
                break;
            }
            let has_type = self.at_type();
            match self.indexed_parameter() {
                Some(x) => {
                    let ghost before = params_built(builder);
                    builder.push(self.arena, x);
                    assert(params_built(builder) =~= before.push(param_view(x)));
                    assert(forall|xs: Seq<NodeModel<ParamModel>>|
                        before + (seq![param_view(x)] + xs) =~= #[trigger] (before.push(
                            param_view(x),
                        ) + xs));
                },
                None => {
                    if !has_type {
                        self.error(None);
                    }
                    return None;
                },
            }
        }
        Some(builder.as_list())
    }

    /// `event name ( params ) [anonymous] ;`, spanning from `event` to `;`.
    fn event_definition(&mut self) -> (r: Option<Node<ContractPart<'a>>>)
        requires
            old(self).wf(),
            kind_at(old(self).tokens@, old(self).pos as int) == TokenKind::DeclarationEvent,
        ensures
            final(self).same_input(old(self)),
            match spec_event(old(self).src@, old(self).tokens@, old(self).pos as int) {
                Some((m, q)) => {
                    &&& r is Some
                    &&& part_view(r.unwrap()) == m
                    &&& final(self).pos == q
                    &&& old(self).pos < q
                    &&& final(self).errors@ == old(self).errors@
                },
                None => r is None && final(self).failed_at(old(self), fail_event(old(self).src@, old(self).tokens@, old(self).pos as int)),
            },
    {
        let start = self.tokens[self.pos].start;
        self.allow(TokenKind::DeclarationEvent);
        let name = match self.expect_name() {
            Some(n) => n,
            None => return None,
        };
        if self.expect_end(TokenKind::ParenOpen).is_none() {
            return None;
        }
        let params = match self.event_params() {
            Some(ps) => ps,
            None => return None,
        };
        if self.expect_end(TokenKind::ParenClose).is_none() {
            return None;
        }
        let anonymous = self.allow(TokenKind::KeywordAnonymous);
        let end = match self.expect_end(TokenKind::Semicolon) {
            Some(e) => e,
            None => return None,
        };
        let n = Node {
            start,
            end,
            value: ContractPart::EventDefinition(EventDefinition { anonymous, name, params }),
        };
        Some(n)
    }

    /// One part of a contract body: an event, or a state variable
    /// `type [visibility] name ;`. Where neither starts at the cursor the
    /// body has ended: nothing is consumed and no error is recorded.
    pub fn contract_part(&mut self) -> (r: PartResult<'a>)
        requires
            old(self).wf(),
        ensures
            final(self).same_input(old(self)),
            match spec_contract_part(old(self).src@, old(self).tokens@, old(self).pos as int) {
                PartStep::Stop => {
                    &&& r is End
                    &&& final(self).pos == old(self).pos
                    &&& final(self).errors@ == old(self).errors@
                },
                PartStep::Item(m, q) => {
                    &&& r matches PartResult::Part(n) && part_view(n) == m
                    &&& final(self).pos == q
                    &&& old(self).pos < q
                    &&& final(self).errors@ == old(self).errors@
                },
                PartStep::Fail => r is Failed && final(self).failed_at(old(self), fail_contract_part(old(self).src@, old(self).tokens@, old(self).pos as int)),
            },
    {
        if self.at(TokenKind::DeclarationEvent) {
            return match self.event_definition() {
                Some(n) => PartResult::Part(n),
                None => PartResult::Failed,
            };
        }
        let ty = match self.elementary_type() {
            Some(t) => t,
            None => return PartResult::End,
        };
        let visibility = self.visibility();
        let name = match self.expect_name() {
            Some(n) => n,
            None => return PartResult::Failed,
        };
        let end = match self.expect_end(TokenKind::Semicolon) {
            Some(e) => e,
            None => return PartResult::Failed,
        };
        PartResult::Part(
            Node {
                start: ty.start,
                end,
                value: ContractPart::StateVariableDeclaration(
                    StateVariableDeclaration { ty, visibility, name, init: None },
                ),
            },
        )
    }

    /// An optional `is name, name, ...` clause; a comma must be followed by
    /// a name.
    fn inherits(&mut self) -> (r: Option<List<'a, NameNode<'a>>>)
        requires
            old(self).wf(),
        ensures
            final(self).same_input(old(self)),
            match spec_inherits(old(self).src@, old(self).tokens@, old(self).pos as int) {
                Some((ms, q)) => {
                    &&& r is Some
                    &&& name_list(r.unwrap()) == ms
                    &&& old(self).pos <= q
                    &&& final(self).pos == q
                    &&& final(self).errors@ == old(self).errors@
                },
                None => r is None && final(self).failed_at(old(self), fail_inherits(old(self).src@, old(self).tokens@, old(self).pos as int)),
            },
    {
        let ghost src = self.src@;
        let ghost toks = self.tokens@;
        let ghost p0 = self.pos as int;
        if !self.allow(TokenKind::KeywordIs) {
            return Some(empty_names());
        }
        let first = match self.expect_name() {
            Some(n) => n,
            None => return None,
        };
        let mut builder = NameListBuilder::new(self.arena, first);
        loop
            invariant
                self.same_input(old(self)),
                self.errors@ == old(self).errors@,
                src == self.src@,
                toks == self.tokens@,
                p0 == old(self).pos,
                p0 <= self.pos,
                fail_inherits(src, toks, p0) == fail_inherits_tail(src, toks, self.pos as int),
                spec_inherits(src, toks, p0) == match spec_inherits_tail(
                    src,
                    toks,
                    self.pos as int,
                ) {
                    None => None,
                    Some((xs, r)) => Some((names_built(builder) + xs, r)),
                },
            ensures
                self.same_input(old(self)),
                self.errors@ == old(self).errors@,
                p0 <= self.pos,
                spec_inherits(src, toks, p0) == Some((names_built(builder), self.pos as int)),
            decreases toks.len() - self.pos,
        {
            if !self.allow(TokenKind::Comma) {
                assert(names_built(builder) + Seq::empty() =~= names_built(builder));
                break;
            }
            match self.expect_name() {
                Some(x) => {
                    let ghost before = names_built(builder);
                    builder.push(self.arena, x);
                    assert(names_built(builder) =~= before.push(name_view(x)));
                    assert(forall|xs: Seq<NameModel>|
                        before + (seq![name_view(x)] + xs) =~= #[trigger] (before.push(
                            name_view(x),
                        ) + xs));
                },
                None => return None,
            }
        }
        Some(builder.as_list())
    }

    /// The parts of a contract body, up to the first position where none
    /// starts; a part that fails ends the body with no list.
    fn contract_body(&mut self) -> (r: Option<List<'a, Node<ContractPart<'a>>>>)
        requires
            old(self).wf(),
        ensures
            final(self).same_input(old(self)),
            match spec_parts(old(self).src@, old(self).tokens@, old(self).pos as int) {
                Some((ms, q)) => {
                    &&& r is Some
                    &&& part_list(r.unwrap()) == ms
                    &&& old(self).pos <= q
                    &&& final(self).pos == q
                    &&& final(self).errors@ == old(self).errors@
                },
                None => r is None && final(self).failed_at(old(self), fail_parts(old(self).src@, old(self).tokens@, old(self).pos as int)),
            },
    {
        let ghost src = self.src@;
        let ghost toks = self.tokens@;
        let ghost p1 = self.pos as int;
        let mut body = PartListBuilder::new();
        loop
            invariant
                self.same_input(old(self)),
                self.errors@ == old(self).errors@,
                src == self.src@,
                toks == self.tokens@,
                p1 == old(self).pos,
                p1 <= self.pos,
                fail_parts(src, toks, p1) == fail_parts(src, toks, self.pos as int),
                spec_parts(src, toks, p1) == match spec_parts(src, toks, self.pos as int) {
                    None => None,
                    Some((xs, r)) => Some((parts_built(body) + xs, r)),
                },
            ensures
                self.same_input(old(self)),
                self.errors@ == old(self).errors@,
                p1 <= self.pos,
                spec_parts(src, toks, p1) == Some((parts_built(body), self.pos as int)),
            decreases toks.len() - self.pos,
        {
            match self.contract_part() {
                PartResult::End => {
                    assert(parts_built(body) + Seq::empty() =~= parts_built(body));
                    break;
                },
                PartResult::Part(x) => {
                    let ghost before = parts_built(body);
                    body.push(self.arena, x);
                    assert(parts_built(body) =~= before.push(part_view(x)));
                    assert(forall|xs: Seq<NodeModel<PartModel>>|
                        before + (seq![part_view(x)] + xs) =~= #[trigger] (before.push(
                            part_view(x),
                        ) + xs));
                },
                PartResult::Failed => return None,
            }
        }
        Some(body.as_list())
    }

    /// `contract name [is names] { parts }`, spanning from the `contract`
    /// keyword to the closing brace. A missing required token records an
    /// error and gives no node.
    pub fn contract_definition(&mut self) -> (r: Option<Node<ContractDefinition<'a>>>)
        requires
            old(self).wf(),
            kind_at(old(self).tokens@, old(self).pos as int) == TokenKind::KeywordContract,
        ensures
            final(self).same_input(old(self)),
            match spec_contract(old(self).src@, old(self).tokens@, old(self).pos as int) {
                Some((m, q)) => {
                    &&& r is Some
                    &&& contract_view(r.unwrap()) == m
                    &&& final(self).pos == q
                    &&& old(self).pos < q
                    &&& final(self).errors@ == old(self).errors@
                },
                None => r is None && final(self).failed_at(old(self), fail_contract(old(self).src@, old(self).tokens@, old(self).pos as int)),
            },
    {
        proof {
            reveal(spec_contract);
        }
        let start = self.tokens[self.pos].start;
        self.allow(TokenKind::KeywordContract);
        let name = match self.expect_name() {
            Some(n) => n,
            None => return None,
        };
        let inherits = match self.inherits() {
            Some(l) => l,
            None => return None,
        };
        if self.expect_end(TokenKind::BraceOpen).is_none() {
            return None;
        }
        let body = match self.contract_body() {
            Some(b) => b,
            None => return None,
        };
        let end = match self.expect_end(TokenKind::BraceClose) {
            Some(e) => e,
            None => return None,
        };
        Some(Node { start, end, value: ContractDefinition { name, inherits, body } })
    }

    /// Contract definitions one after another up to the end of the tokens.
    /// Anything else at the top level, or a contract that fails, records an
    /// error and gives nothing.
    pub fn source_unit(&mut self) -> (r: Option<Vec<Node<ContractDefinition<'a>>>>)
        requires
            old(self).wf(),
        ensures
            final(self).same_input(old(self)),
            match spec_source_unit(old(self).src@, old(self).tokens@, old(self).pos as int) {
                Some(ms) => {
                    &&& r is Some
                    &&& contract_models(r.unwrap()@) == ms
                    &&& final(self).errors@ == old(self).errors@
                },
                None => r is None && final(self).failed_at(old(self), fail_source_unit(old(self).src@, old(self).tokens@, old(self).pos as int)),
            },
    {
        let ghost src = self.src@;
        let ghost toks = self.tokens@;
        let ghost p0 = self.pos as int;
        let mut out: Vec<Node<ContractDefinition<'a>>> = Vec::new();
        loop
            invariant
                self.same_input(old(self)),
                self.errors@ == old(self).errors@,
                src == self.src@,
                toks == self.tokens@,
                p0 == old(self).pos,
                fail_source_unit(src, toks, p0) == fail_source_unit(src, toks, self.pos as int),
                spec_source_unit(src, toks, p0) == match spec_source_unit(
                    src,
                    toks,
                    self.pos as int,
                ) {
                    None => None,
                    Some(xs) => Some(contract_models(out@) + xs),
                },
            ensures
                self.same_input(old(self)),
                self.errors@ == old(self).errors@,
                spec_source_unit(src, toks, p0) == Some(contract_models(out@)),
            decreases toks.len() - self.pos,
        {
            if self.at(TokenKind::KeywordContract) {
                match self.contract_definition() {
                    Some(c) => {
                        let ghost before = contract_models(out@);
                        out.push(c);
                        assert(contract_models(out@) =~= before.push(contract_view(c)));
                        assert(forall|xs: Seq<NodeModel<ContractModel>>|
                            before + (seq![contract_view(c)] + xs) =~= #[trigger] (before.push(
                                contract_view(c),
                            ) + xs));
                    },
                    None => return None,
                }
            } else if self.pos >= self.tokens.len() {
                assert(contract_models(out@) + Seq::empty() =~= contract_models(out@));
                break;
            } else {
                self.error(Some(TokenKind::KeywordContract));
                return None;
            }
        }
        Some(out)
    }
}

/// Parses a whole source text: the contract definitions in it, in order,
/// or the errors met where it fails.
pub fn parse<'a>(arena: &'a Arena, src: &[u8]) -> (r: Result<
    Vec<Node<ContractDefinition<'a>>>,
    Vec<ParseError>,
>)
    ensures
        match spec_source_unit(src@, spec_tokens(src@), 0) {
            Some(ms) => r matches Ok(cs) && contract_models(cs@) == ms,
            None => {
                let (at, expected) = fail_source_unit(src@, spec_tokens(src@), 0);
                r matches Err(es) && es@ == seq![error_at(src@, spec_tokens(src@), at, expected)]
            },
        },
{
    let mut p = Parser::new(arena, src);
    match p.source_unit() {
        Some(cs) => Ok(cs),
        None => Err(p.errors),
    }
}

} // verus!
