use vstd::prelude::*;

verus! {

/// An elementary type name; sizes are in bytes (`int32` is `Int(4)`).
#[derive(Clone, Copy, Debug, PartialEq, Eq, Structural)]
pub enum ElementaryTypeName {
    Address,
    Bool,
    String,
    Bytes,
    Byte(u8),
    Int(u8),
    Uint(u8),
}

#[derive(Clone, Copy, Debug, PartialEq, Eq, Structural)]
pub enum TokenKind {
    EndOfProgram,
    Identifier,
    KeywordContract,
    KeywordIs,
    DeclarationEvent,
    KeywordAnonymous,
    KeywordIndexed,
    KeywordPublic,
    KeywordInternal,
    KeywordPrivate,
    KeywordConstant,
    BraceOpen,
    BraceClose,
    ParenOpen,
    ParenClose,
    Comma,
    Semicolon,
    ElementaryType(ElementaryTypeName),
    UnexpectedToken,
}

/// A lexical unit with the byte range `[start, end)` it covers.
#[derive(Clone, Copy, Debug, PartialEq, Eq, Structural)]
pub struct Token {
    pub kind: TokenKind,
    pub start: usize,
    pub end: usize,
}

/// Every token lies inside a source of `len` bytes, is non-empty, and the
/// tokens follow one another without overlapping.
pub open spec fn tokens_wf(len: nat, toks: Seq<Token>) -> bool {
    &&& forall|i: int|
        0 <= i < toks.len() ==> #[trigger] toks[i].start < toks[i].end && toks[i].end <= len
    &&& forall|i: int, j: int|
        0 <= i < j < toks.len() ==> #[trigger] toks[i].end <= #[trigger] toks[j].start
}

/// The kind of the token at `p`, or `EndOfProgram` past the last one.
pub open spec fn kind_at(toks: Seq<Token>, p: int) -> TokenKind {
    if 0 <= p < toks.len() {
        toks[p].kind
    } else {
        TokenKind::EndOfProgram
    }
}

} // verus!
