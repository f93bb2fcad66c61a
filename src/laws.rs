//! Properties of the grammar, proved over the spec functions that the
//! parser's contracts use.
use vstd::prelude::*;

use crate::grammar::{
    fail_event, fail_params, fail_params_tail,
    spec_contract, spec_contract_part, spec_event, spec_indexed_parameter, spec_inherits,
    spec_inherits_tail, spec_name, spec_params, spec_params_tail, spec_parts, spec_source_unit,
    spec_type_name, PartStep,
};
use crate::lexer::{lexed, text_of};
use crate::token::{kind_at, tokens_wf, Token, TokenKind};

verus! {

proof fn lemma_params_tail_advances(src: Seq<u8>, toks: Seq<Token>, p: int)
    requires
        spec_params_tail(src, toks, p) is Some,
    ensures
        spec_params_tail(src, toks, p).unwrap().1 >= p,
    decreases toks.len() - p,
{
    if kind_at(toks, p) == TokenKind::Comma {
        let (_, q) = spec_indexed_parameter(src, toks, p + 1).unwrap();
        lemma_params_tail_advances(src, toks, q);
    }
}

proof fn lemma_inherits_tail_advances(src: Seq<u8>, toks: Seq<Token>, p: int)
    requires
        spec_inherits_tail(src, toks, p) is Some,
    ensures
        spec_inherits_tail(src, toks, p).unwrap().1 >= p,
    decreases toks.len() - p,
{
    if kind_at(toks, p) == TokenKind::Comma {
        let (_, q) = spec_name(src, toks, p + 1).unwrap();
        lemma_inherits_tail_advances(src, toks, q);
    }
}

proof fn lemma_parts_advance(src: Seq<u8>, toks: Seq<Token>, p: int)
    requires
        spec_parts(src, toks, p) is Some,
    ensures
        spec_parts(src, toks, p).unwrap().1 >= p,
    decreases toks.len() - p,
{
    if let PartStep::Item(_, q) = spec_contract_part(src, toks, p) {
        lemma_parts_advance(src, toks, q);
    }
}

proof fn lemma_params_advance(src: Seq<u8>, toks: Seq<Token>, p: int)
    requires
        spec_params(src, toks, p) is Some,
    ensures
        spec_params(src, toks, p).unwrap().1 >= p,
{
    if let Some((_, q)) = spec_indexed_parameter(src, toks, p) {
        lemma_params_tail_advances(src, toks, q);
    }
}

/// A contract definition's span starts at its `contract` keyword and ends
/// right after its closing brace, the last token it consumed.
pub proof fn lemma_contract_span(src: Seq<u8>, toks: Seq<Token>, p: int)
    requires
        kind_at(toks, p) == TokenKind::KeywordContract,
        spec_contract(src, toks, p) is Some,
    ensures
        ({
            let (m, q) = spec_contract(src, toks, p).unwrap();
            &&& p < q <= toks.len()
            &&& m.start == toks[p].start
            &&& toks[p].kind == TokenKind::KeywordContract
            &&& m.end == toks[q - 1].end
            &&& toks[q - 1].kind == TokenKind::BraceClose
        }),
{
    reveal(spec_contract);
    let (_, p2) = spec_name(src, toks, p + 1).unwrap();
    let (_, r) = spec_inherits(src, toks, p2).unwrap();
    if kind_at(toks, p2) == TokenKind::KeywordIs {
        let (_, q) = spec_name(src, toks, p2 + 1).unwrap();
        lemma_inherits_tail_advances(src, toks, q);
    }
    lemma_parts_advance(src, toks, r + 1);
}

/// On tokens read from `src`, a contract definition's span starts where the
/// text `contract` starts and ends right after a `}`.
pub proof fn lemma_contract_span_in_text(src: Seq<u8>, toks: Seq<Token>, p: int)
    requires
        lexed(src, toks),
        kind_at(toks, p) == TokenKind::KeywordContract,
        spec_contract(src, toks, p) is Some,
    ensures
        ({
            let (m, q) = spec_contract(src, toks, p).unwrap();
            &&& src.subrange(m.start as int, toks[p].end as int) == text_of(
                TokenKind::KeywordContract,
            ).unwrap()
            &&& 0 < m.end <= src.len()
            &&& src[m.end - 1] == 125u8
        }),
{
    lemma_contract_span(src, toks, p);
    let (m, q) = spec_contract(src, toks, p).unwrap();
    assert(text_of(toks[q - 1].kind) is Some);
    assert(src.subrange(toks[q - 1].start as int, toks[q - 1].end as int) == seq![125u8]);
    assert(src.subrange(toks[q - 1].start as int, toks[q - 1].end as int)[0] == src[m.end - 1]);
    assert(text_of(toks[p].kind) is Some);
}


/// Every node's span runs from the start of the first token the construct
/// consumed to the end of the last one, so slicing the source by the span
/// gives exactly the text it was read from; an identifier's value is that
/// text.
pub proof fn lemma_spans_cover_consumed_tokens(src: Seq<u8>, toks: Seq<Token>, p: int)
    requires
        tokens_wf(src.len(), toks),
    ensures
        spec_name(src, toks, p) matches Some((m, q)) ==> {
            &&& p < q <= toks.len()
            &&& m.start == toks[p].start
            &&& m.end == toks[q - 1].end
            &&& m.value == src.subrange(m.start as int, m.end as int)
        },
        spec_type_name(toks, p) matches Some((m, q)) ==> {
            &&& p < q <= toks.len()
            &&& m.start == toks[p].start
            &&& m.end == toks[q - 1].end
        },
        spec_indexed_parameter(src, toks, p) matches Some((m, q)) ==> {
            &&& p < q <= toks.len()
            &&& m.start == toks[p].start
            &&& m.end == toks[q - 1].end
        },
        spec_event(src, toks, p) matches Some((m, q)) ==> {
            &&& p < q <= toks.len()
            &&& m.start == toks[p].start
            &&& m.end == toks[q - 1].end
        },
        spec_contract_part(src, toks, p) matches PartStep::Item(m, q) ==> {
            &&& p < q <= toks.len()
            &&& m.start == toks[p].start
            &&& m.end == toks[q - 1].end
        },
        spec_contract(src, toks, p) matches Some((m, q)) ==> {
            &&& p < q <= toks.len()
            &&& m.start == toks[p].start
            &&& m.end == toks[q - 1].end
        },
{
    if spec_event(src, toks, p) is Some {
        let (_, p2) = spec_name(src, toks, p + 1).unwrap();
        lemma_params_advance(src, toks, p2 + 1);
    }
    if spec_contract(src, toks, p) is Some {
        reveal(spec_contract);
        let (_, p2) = spec_name(src, toks, p + 1).unwrap();
        let (_, r) = spec_inherits(src, toks, p2).unwrap();
        if kind_at(toks, p2) == TokenKind::KeywordIs {
            let (_, q) = spec_name(src, toks, p2 + 1).unwrap();
            lemma_inherits_tail_advances(src, toks, q);
        }
        lemma_parts_advance(src, toks, r + 1);
    }
}

/// A comma in an event's parameter list that no parameter follows fails the
/// list, with the error at the token after the comma: it is never taken as
/// the list's end.
pub proof fn lemma_dangling_comma_fails(src: Seq<u8>, toks: Seq<Token>, q: int)
    requires
        kind_at(toks, q) == TokenKind::Comma,
        spec_type_name(toks, q + 1) is None,
    ensures
        spec_params_tail(src, toks, q) is None,
        fail_params_tail(src, toks, q) == (q + 1, None::<TokenKind>),
{
}

/// So an event whose parameters end in `, )` gives no node, and its error
/// is recorded at that `)`.
pub proof fn lemma_event_with_dangling_comma_fails(src: Seq<u8>, toks: Seq<Token>, p: int)
    requires
        spec_name(src, toks, p + 1) is Some,
        kind_at(toks, p + 2) == TokenKind::ParenOpen,
        spec_indexed_parameter(src, toks, p + 3) is Some,
        kind_at(toks, spec_indexed_parameter(src, toks, p + 3).unwrap().1) == TokenKind::Comma,
        kind_at(toks, spec_indexed_parameter(src, toks, p + 3).unwrap().1 + 1)
            == TokenKind::ParenClose,
    ensures
        spec_event(src, toks, p) is None,
        fail_event(src, toks, p) == (
            spec_indexed_parameter(src, toks, p + 3).unwrap().1 + 1,
            None::<TokenKind>,
        ),
{
    let q = spec_indexed_parameter(src, toks, p + 3).unwrap().1;
    lemma_dangling_comma_fails(src, toks, q);
}

/// Contract definitions that follow one another are parsed one by one: the
/// source unit from a contract is that contract, parsed on its own, followed
/// by what the rest of the source gives; and on well-formed tokens its span
/// ends before the next token starts.
pub proof fn lemma_consecutive_contracts(src: Seq<u8>, toks: Seq<Token>, p: int)
    requires
        kind_at(toks, p) == TokenKind::KeywordContract,
        spec_contract(src, toks, p) is Some,
    ensures
        ({
            let (c, q) = spec_contract(src, toks, p).unwrap();
            &&& spec_source_unit(src, toks, p) == match spec_source_unit(src, toks, q) {
                Some(cs) => Some(seq![c] + cs),
                None => None,
            }
            &&& tokens_wf(src.len(), toks) && q < toks.len() ==> c.end <= toks[q].start
        }),
{
    lemma_contract_span(src, toks, p);
}

proof fn lemma_params_tail_truncated(src: Seq<u8>, toks: Seq<Token>, p: int, n: int)
    requires
        0 <= p,
        n <= toks.len(),
        spec_params_tail(src, toks, p) matches Some((_, r)) && r < n,
    ensures
        spec_params_tail(src, toks.subrange(0, n), p) == spec_params_tail(src, toks, p),
    decreases toks.len() - p,
{
    let cut = toks.subrange(0, n);
    if kind_at(toks, p) == TokenKind::Comma {
        let (_, q) = spec_indexed_parameter(src, toks, p + 1).unwrap();
        lemma_params_tail_advances(src, toks, q);
        lemma_params_tail_truncated(src, toks, q, n);
        assert(spec_indexed_parameter(src, cut, p + 1) == spec_indexed_parameter(src, toks, p + 1));
    }
}

proof fn lemma_inherits_tail_truncated(src: Seq<u8>, toks: Seq<Token>, p: int, n: int)
    requires
        0 <= p,
        n <= toks.len(),
        spec_inherits_tail(src, toks, p) matches Some((_, r)) && r < n,
    ensures
        spec_inherits_tail(src, toks.subrange(0, n), p) == spec_inherits_tail(src, toks, p),
    decreases toks.len() - p,
{
    if kind_at(toks, p) == TokenKind::Comma {
        let (_, q) = spec_name(src, toks, p + 1).unwrap();
        lemma_inherits_tail_advances(src, toks, q);
        lemma_inherits_tail_truncated(src, toks, q, n);
    }
}

proof fn lemma_part_truncated(src: Seq<u8>, toks: Seq<Token>, p: int, n: int)
    requires
        0 <= p,
        n <= toks.len(),
        spec_contract_part(src, toks, p) matches PartStep::Item(_, q) && q <= n,
    ensures
        spec_contract_part(src, toks.subrange(0, n), p) == spec_contract_part(src, toks, p),
{
    let cut = toks.subrange(0, n);
    if kind_at(toks, p) == TokenKind::DeclarationEvent {
        let (_, p2) = spec_name(src, toks, p + 1).unwrap();
        let (_, r) = spec_params(src, toks, p2 + 1).unwrap();
        lemma_params_advance(src, toks, p2 + 1);
        if let Some((_, q)) = spec_indexed_parameter(src, toks, p2 + 1) {
            lemma_params_tail_advances(src, toks, q);
            lemma_params_tail_truncated(src, toks, q, n);
            assert(spec_indexed_parameter(src, cut, p2 + 1) == spec_indexed_parameter(
                src,
                toks,
                p2 + 1,
            ));
        }
        assert(spec_params(src, cut, p2 + 1) == spec_params(src, toks, p2 + 1));
        assert(spec_event(src, cut, p) == spec_event(src, toks, p));
    }
}

proof fn lemma_parts_truncated(src: Seq<u8>, toks: Seq<Token>, p: int, n: int)
    requires
        0 <= p,
        n <= toks.len(),
        spec_parts(src, toks, p) matches Some((_, r)) && r < n,
    ensures
        spec_parts(src, toks.subrange(0, n), p) == spec_parts(src, toks, p),
    decreases toks.len() - p,
{
    match spec_contract_part(src, toks, p) {
        PartStep::Item(_, q) => {
            lemma_parts_advance(src, toks, q);
            lemma_part_truncated(src, toks, p, n);
            lemma_parts_truncated(src, toks, q, n);
        },
        _ => {
            assert(kind_at(toks.subrange(0, n), p) == kind_at(toks, p));
        },
    }
}

/// A contract definition is parsed the same whatever follows it: with the
/// tokens cut right after its closing brace it gives the same node.
pub proof fn lemma_contract_ignores_what_follows(src: Seq<u8>, toks: Seq<Token>, p: int)
    requires
        kind_at(toks, p) == TokenKind::KeywordContract,
        spec_contract(src, toks, p) is Some,
    ensures
        ({
            let (c, q) = spec_contract(src, toks, p).unwrap();
            spec_contract(src, toks.subrange(0, q), p) == Some((c, q))
        }),
{
    lemma_contract_span(src, toks, p);
    reveal(spec_contract);
    let (_, q) = spec_contract(src, toks, p).unwrap();
    let cut = toks.subrange(0, q);
    let (_, p2) = spec_name(src, toks, p + 1).unwrap();
    let (_, r) = spec_inherits(src, toks, p2).unwrap();
    lemma_parts_advance(src, toks, r + 1);
    if kind_at(toks, p2) == TokenKind::KeywordIs {
        let (_, q1) = spec_name(src, toks, p2 + 1).unwrap();
        lemma_inherits_tail_advances(src, toks, q1);
        lemma_inherits_tail_truncated(src, toks, q1, q);
    }
    assert(spec_inherits(src, cut, p2) == spec_inherits(src, toks, p2));
    lemma_parts_truncated(src, toks, r + 1, q);
}

} // verus!
