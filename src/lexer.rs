//! Splits source bytes into tokens: words (keywords, elementary type names,
//! identifiers), one-byte punctuation, and whitespace between them.
use vstd::prelude::*;

use crate::token::{tokens_wf, ElementaryTypeName, Token, TokenKind};

verus! {

pub open spec fn is_space(b: u8) -> bool {
    b == 32 || b == 9 || b == 10 || b == 13
}

/// `A-Z`, `a-z`, `_` or `$`.
pub open spec fn is_word_start(b: u8) -> bool {
    (65 <= b <= 90) || (97 <= b <= 122) || b == 95 || b == 36
}

/// A word byte: a word start or a digit.
pub open spec fn is_word_byte(b: u8) -> bool {
    is_word_start(b) || (48 <= b <= 57)
}

/// The text of a keyword or punctuation token; `None` for other kinds.
pub open spec fn text_of(kind: TokenKind) -> Option<Seq<u8>> {
    match kind {
        TokenKind::KeywordContract => Some(seq![99u8, 111, 110, 116, 114, 97, 99, 116]),
        TokenKind::KeywordIs => Some(seq![105u8, 115]),
        TokenKind::DeclarationEvent => Some(seq![101u8, 118, 101, 110, 116]),
        TokenKind::KeywordAnonymous => Some(seq![97u8, 110, 111, 110, 121, 109, 111, 117, 115]),
        TokenKind::KeywordIndexed => Some(seq![105u8, 110, 100, 101, 120, 101, 100]),
        TokenKind::KeywordPublic => Some(seq![112u8, 117, 98, 108, 105, 99]),
        TokenKind::KeywordInternal => Some(seq![105u8, 110, 116, 101, 114, 110, 97, 108]),
        TokenKind::KeywordPrivate => Some(seq![112u8, 114, 105, 118, 97, 116, 101]),
        TokenKind::KeywordConstant => Some(seq![99u8, 111, 110, 115, 116, 97, 110, 116]),
        TokenKind::BraceOpen => Some(seq![123u8]),
        TokenKind::BraceClose => Some(seq![125u8]),
        TokenKind::ParenOpen => Some(seq![40u8]),
        TokenKind::ParenClose => Some(seq![41u8]),
        TokenKind::Comma => Some(seq![44u8]),
        TokenKind::Semicolon => Some(seq![59u8]),
        _ => None,
    }
}

/// The value of the decimal digits `d`.
pub open spec fn digits_value(d: Seq<u8>) -> nat
    decreases d.len(),
{
    if d.len() == 0 {
        0
    } else {
        digits_value(d.drop_last()) * 10 + (d.last() - 48) as nat
    }
}

/// The number that `d` writes with one to three digits and no leading zero.
pub open spec fn small_number_of(d: Seq<u8>) -> Option<nat> {
    if 1 <= d.len() <= 3 && d[0] != 48 && forall|j: int| 0 <= j < d.len() ==> 48 <= #[trigger] d[j] <= 57 {
        Some(digits_value(d))
    } else {
        None
    }
}

/// The kind of a word spelled out in full: a keyword or an unsized
/// elementary type name.
pub open spec fn exact_word_kind(w: Seq<u8>) -> Option<TokenKind> {
    if w == seq![99u8, 111, 110, 116, 114, 97, 99, 116] {
        Some(TokenKind::KeywordContract)
    }     else if w == seq![105u8, 115] {
        Some(TokenKind::KeywordIs)
    }     else if w == seq![101u8, 118, 101, 110, 116] {
        Some(TokenKind::DeclarationEvent)
    }     else if w == seq![97u8, 110, 111, 110, 121, 109, 111, 117, 115] {
        Some(TokenKind::KeywordAnonymous)
    }     else if w == seq![105u8, 110, 100, 101, 120, 101, 100] {
        Some(TokenKind::KeywordIndexed)
    }     else if w == seq![112u8, 117, 98, 108, 105, 99] {
        Some(TokenKind::KeywordPublic)
    }     else if w == seq![105u8, 110, 116, 101, 114, 110, 97, 108] {
        Some(TokenKind::KeywordInternal)
    }     else if w == seq![112u8, 114, 105, 118, 97, 116, 101] {
        Some(TokenKind::KeywordPrivate)
    }     else if w == seq![99u8, 111, 110, 115, 116, 97, 110, 116] {
        Some(TokenKind::KeywordConstant)
    }     else if w == seq![97u8, 100, 100, 114, 101, 115, 115] {
        Some(TokenKind::ElementaryType(ElementaryTypeName::Address))
    }     else if w == seq![98u8, 111, 111, 108] {
        Some(TokenKind::ElementaryType(ElementaryTypeName::Bool))
    }     else if w == seq![115u8, 116, 114, 105, 110, 103] {
        Some(TokenKind::ElementaryType(ElementaryTypeName::String))
    }     else if w == seq![98u8, 121, 116, 101, 115] {
        Some(TokenKind::ElementaryType(ElementaryTypeName::Bytes))
    }     else if w == seq![98u8, 121, 116, 101] {
        Some(TokenKind::ElementaryType(ElementaryTypeName::Byte(1)))
    }     else if w == seq![105u8, 110, 116] {
        Some(TokenKind::ElementaryType(ElementaryTypeName::Int(32)))
    }     else if w == seq![117u8, 105, 110, 116] {
        Some(TokenKind::ElementaryType(ElementaryTypeName::Uint(32)))
    } else {
        None
    }
}

/// The number written after `prefix` in `w`, where `w` starts with it.
pub open spec fn number_after(w: Seq<u8>, prefix: Seq<u8>) -> Option<nat> {
    if w.len() > prefix.len() && w.subrange(0, prefix.len() as int) == prefix {
        small_number_of(w.subrange(prefix.len() as int, w.len() as int))
    } else {
        None
    }
}

/// The kind of a sized elementary type name: `bytes1` to `bytes32`, and
/// `int8` to `int256` and `uint8` to `uint256` in steps of eight bits; the
/// size is in bytes.
pub open spec fn sized_word_kind(w: Seq<u8>) -> Option<TokenKind> {
    let b = number_after(w, seq![98u8, 121, 116, 101, 115]);
    let i = number_after(w, seq![105u8, 110, 116]);
    let u = number_after(w, seq![117u8, 105, 110, 116]);
    if b is Some && b.unwrap() <= 32 {
        Some(TokenKind::ElementaryType(ElementaryTypeName::Byte(b.unwrap() as u8)))
    } else if i is Some && i.unwrap() <= 256 && i.unwrap() % 8 == 0 {
        Some(TokenKind::ElementaryType(ElementaryTypeName::Int((i.unwrap() / 8) as u8)))
    } else if u is Some && u.unwrap() <= 256 && u.unwrap() % 8 == 0 {
        Some(TokenKind::ElementaryType(ElementaryTypeName::Uint((u.unwrap() / 8) as u8)))
    } else {
        None
    }
}

/// The kind of the token that the word `w` makes.
pub open spec fn spec_word_kind(w: Seq<u8>) -> TokenKind {
    match exact_word_kind(w) {
        Some(k) => k,
        None => match sized_word_kind(w) {
            Some(k) => k,
            None => TokenKind::Identifier,
        },
    }
}

/// The kind of the one-byte token `b`.
pub open spec fn spec_punctuation(b: u8) -> TokenKind {
    if b == 123 {
        TokenKind::BraceOpen
    } else if b == 125 {
        TokenKind::BraceClose
    } else if b == 40 {
        TokenKind::ParenOpen
    } else if b == 41 {
        TokenKind::ParenClose
    } else if b == 44 {
        TokenKind::Comma
    } else if b == 59 {
        TokenKind::Semicolon
    } else {
        TokenKind::UnexpectedToken
    }
}

/// The end of the run of word bytes that starts at `i`.
pub open spec fn word_end(src: Seq<u8>, i: int) -> int
    decreases src.len() - i,
{
    if 0 <= i < src.len() && is_word_byte(src[i]) {
        word_end(src, i + 1)
    } else {
        i
    }
}

/// The tokens of `src` from byte `i` on: whitespace is skipped, a maximal
/// run of word bytes that starts with a word start is one word token, and
/// any other byte is a one-byte token.
pub open spec fn spec_tokens_from(src: Seq<u8>, i: int) -> Seq<Token>
    decreases src.len() - i,
{
    if i < 0 || i >= src.len() {
        Seq::empty()
    } else if is_space(src[i]) {
        spec_tokens_from(src, i + 1)
    } else if is_word_start(src[i]) {
        let e = word_end(src, i + 1);
        if i < e <= src.len() {
            seq![Token { kind: spec_word_kind(src.subrange(i, e)), start: i as usize, end: e as usize }]
                + spec_tokens_from(src, e)
        } else {
            Seq::empty()
        }
    } else {
        seq![Token { kind: spec_punctuation(src[i]), start: i as usize, end: (i + 1) as usize }]
            + spec_tokens_from(src, i + 1)
    }
}

/// The tokens of `src`.
pub open spec fn spec_tokens(src: Seq<u8>) -> Seq<Token> {
    spec_tokens_from(src, 0)
}

proof fn lemma_word_end_bounds(src: Seq<u8>, i: int)
    requires
        0 <= i <= src.len(),
    ensures
        i <= word_end(src, i) <= src.len(),
        word_end(src, i) < src.len() ==> !is_word_byte(src[word_end(src, i)]),
    decreases src.len() - i,
{
    if i < src.len() && is_word_byte(src[i]) {
        lemma_word_end_bounds(src, i + 1);
    }
}

/// What `tokenize` gives: well-formed tokens of no `EndOfProgram` kind, only
/// whitespace outside them, identifiers made of word bytes, and keywords and
/// punctuation spelled by their text.
pub open spec fn lexed(src: Seq<u8>, toks: Seq<Token>) -> bool {
    &&& tokens_wf(src.len(), toks)
    &&& forall|i: int| 0 <= i < toks.len() ==> #[trigger] toks[i].kind != TokenKind::EndOfProgram
    &&& forall|k: int|
        0 <= k < src.len() && !is_space(#[trigger] src[k]) ==> exists|i: int|
            0 <= i < toks.len() && #[trigger] toks[i].start <= k < toks[i].end
    &&& forall|i: int, k: int|
        #![trigger toks[i], src[k]]
        0 <= i < toks.len() && toks[i].kind == TokenKind::Identifier && toks[i].start <= k
            < toks[i].end ==> is_word_byte(src[k])
    &&& forall|i: int|
        0 <= i < toks.len() && (#[trigger] text_of(toks[i].kind)) is Some ==> src.subrange(
            toks[i].start as int,
            toks[i].end as int,
        ) == text_of(toks[i].kind).unwrap()
}

fn space(b: u8) -> (r: bool)
    ensures
        r == is_space(b),
{
    b == 32 || b == 9 || b == 10 || b == 13
}

fn word_start(b: u8) -> (r: bool)
    ensures
        r == is_word_start(b),
{
    (65 <= b && b <= 90) || (97 <= b && b <= 122) || b == 95 || b == 36
}

fn word_byte(b: u8) -> (r: bool)
    ensures
        r == is_word_byte(b),
{
    word_start(b) || (48 <= b && b <= 57)
}

/// Whether `src[start..end]` is exactly `w`.
fn word_is(src: &[u8], start: usize, end: usize, w: &[u8]) -> (r: bool)
    requires
        start <= end <= src@.len(),
    ensures
        r == (src@.subrange(start as int, end as int) == w@),
{
    if end - start != w.len() {
        return false;
    }
    let mut i: usize = 0;
    while i < w.len()
        invariant
            start <= end <= src@.len(),
            end - start == w@.len(),
            i <= w@.len(),
            forall|j: int| 0 <= j < i ==> src@[start + j] == w@[j],
        decreases w@.len() - i,
    {
        if src[start + i] != w[i] {
            assert(src@.subrange(start as int, end as int)[i as int] != w@[i as int]);
            return false;
        }
        i = i + 1;
    }
    assert(src@.subrange(start as int, end as int) =~= w@);
    true
}

/// The decimal number written in `src[start..end]`, if it is one to three
/// digits with no leading zero.
fn small_number(src: &[u8], start: usize, end: usize) -> (r: Option<u32>)
    requires
        start <= end <= src@.len(),
    ensures
        match small_number_of(src@.subrange(start as int, end as int)) {
            Some(n) => r == Some(n as u32) && n < 1000,
            None => r is None,
        },
{
    let ghost d = src@.subrange(start as int, end as int);
    if end <= start || end - start > 3 || src[start] == 48 {
        return None;
    }
    let mut n: u32 = 0;
    let mut i: usize = start;
    while i < end
        invariant
            start < end <= src@.len(),
            start <= i <= end,
            end - start <= 3,
            d == src@.subrange(start as int, end as int),
            d[0] != 48,
            forall|j: int| 0 <= j < i - start ==> 48 <= #[trigger] d[j] <= 57,
            n as nat == digits_value(src@.subrange(start as int, i as int)),
            i == start ==> n == 0,
            i == start + 1 ==> n < 10,
            i == start + 2 ==> n < 100,
            i == start + 3 ==> n < 1000,
        decreases end - i,
    {
        let b = src[i];
        assert(d[i - start] == b);
        if b < 48 || b > 57 {
            return None;
        }
        proof {
            let next = src@.subrange(start as int, i + 1);
            assert(next.drop_last() =~= src@.subrange(start as int, i as int));
            assert(next.last() == b);
        }
        n = n * 10 + (b - 48) as u32;
        i = i + 1;
    }
    assert(src@.subrange(start as int, i as int) =~= d);
    Some(n)
}

/// The number written after `prefix` in `src[start..end]`, where the word
/// starts with it.
fn number_after_prefix(src: &[u8], start: usize, end: usize, prefix: &[u8]) -> (r: Option<u32>)
    requires
        start <= end <= src@.len(),
    ensures
        match number_after(src@.subrange(start as int, end as int), prefix@) {
            Some(n) => r == Some(n as u32) && n < 1000,
            None => r is None,
        },
{
    let ghost w = src@.subrange(start as int, end as int);
    if end - start > prefix.len() {
        let mid = start + prefix.len();
        assert(w.subrange(0, prefix@.len() as int) =~= src@.subrange(start as int, mid as int));
        assert(w.subrange(prefix@.len() as int, w.len() as int) =~= src@.subrange(
            mid as int,
            end as int,
        ));
        if word_is(src, start, mid, prefix) {
            return small_number(src, mid, end);
        }
    }
    None
}

/// The kind of the token that the word `src[start..end]` makes.
fn word_kind(src: &[u8], start: usize, end: usize) -> (k: TokenKind)
    requires
        start <= end <= src@.len(),
    ensures
        k == spec_word_kind(src@.subrange(start as int, end as int)),
{
    if word_is(src, start, end, vec![99, 111, 110, 116, 114, 97, 99, 116].as_slice()) {
        return TokenKind::KeywordContract;
    }
    if word_is(src, start, end, vec![105, 115].as_slice()) {
        return TokenKind::KeywordIs;
    }
    if word_is(src, start, end, vec![101, 118, 101, 110, 116].as_slice()) {
        return TokenKind::DeclarationEvent;
    }
    if word_is(src, start, end, vec![97, 110, 111, 110, 121, 109, 111, 117, 115].as_slice()) {
        return TokenKind::KeywordAnonymous;
    }
    if word_is(src, start, end, vec![105, 110, 100, 101, 120, 101, 100].as_slice()) {
        return TokenKind::KeywordIndexed;
    }
    if word_is(src, start, end, vec![112, 117, 98, 108, 105, 99].as_slice()) {
        return TokenKind::KeywordPublic;
    }
    if word_is(src, start, end, vec![105, 110, 116, 101, 114, 110, 97, 108].as_slice()) {
        return TokenKind::KeywordInternal;
    }
    if word_is(src, start, end, vec![112, 114, 105, 118, 97, 116, 101].as_slice()) {
        return TokenKind::KeywordPrivate;
    }
    if word_is(src, start, end, vec![99, 111, 110, 115, 116, 97, 110, 116].as_slice()) {
        return TokenKind::KeywordConstant;
    }
    if word_is(src, start, end, vec![97, 100, 100, 114, 101, 115, 115].as_slice()) {
        return TokenKind::ElementaryType(ElementaryTypeName::Address);
    }
    if word_is(src, start, end, vec![98, 111, 111, 108].as_slice()) {
        return TokenKind::ElementaryType(ElementaryTypeName::Bool);
    }
    if word_is(src, start, end, vec![115, 116, 114, 105, 110, 103].as_slice()) {
        return TokenKind::ElementaryType(ElementaryTypeName::String);
    }
    if word_is(src, start, end, vec![98, 121, 116, 101, 115].as_slice()) {
        return TokenKind::ElementaryType(ElementaryTypeName::Bytes);
    }
    if word_is(src, start, end, vec![98, 121, 116, 101].as_slice()) {
        return TokenKind::ElementaryType(ElementaryTypeName::Byte(1));
    }
    if word_is(src, start, end, vec![105, 110, 116].as_slice()) {
        return TokenKind::ElementaryType(ElementaryTypeName::Int(32));
    }
    if word_is(src, start, end, vec![117, 105, 110, 116].as_slice()) {
        return TokenKind::ElementaryType(ElementaryTypeName::Uint(32));
    }
    if let Some(n) = number_after_prefix(src, start, end, vec![98, 121, 116, 101, 115].as_slice()) {
        if n <= 32 {
            return TokenKind::ElementaryType(ElementaryTypeName::Byte(n as u8));
        }
    }
    if let Some(n) = number_after_prefix(src, start, end, vec![105, 110, 116].as_slice()) {
        if n <= 256 && n % 8 == 0 {
            return TokenKind::ElementaryType(ElementaryTypeName::Int((n / 8) as u8));
        }
    }
    if let Some(n) = number_after_prefix(src, start, end, vec![117, 105, 110, 116].as_slice()) {
        if n <= 256 && n % 8 == 0 {
            return TokenKind::ElementaryType(ElementaryTypeName::Uint((n / 8) as u8));
        }
    }
    TokenKind::Identifier
}

/// The kind of a one-byte token.
fn punctuation(b: u8) -> (k: TokenKind)
    ensures
        k == spec_punctuation(b),
{
    if b == 123 {
        TokenKind::BraceOpen
    } else if b == 125 {
        TokenKind::BraceClose
    } else if b == 40 {
        TokenKind::ParenOpen
    } else if b == 41 {
        TokenKind::ParenClose
    } else if b == 44 {
        TokenKind::Comma
    } else if b == 59 {
        TokenKind::Semicolon
    } else {
        TokenKind::UnexpectedToken
    }
}

/// Splits `src` into tokens.
pub fn tokenize(src: &[u8]) -> (toks: Vec<Token>)
    ensures
        toks@ == spec_tokens(src@),
        lexed(src@, toks@),
{
    let n = src.len();
    let mut toks: Vec<Token> = Vec::new();
    let mut i: usize = 0;
    while i < n
        invariant
            n == src@.len(),
            i <= n,
            tokens_wf(n as nat, toks@),
            forall|j: int| 0 <= j < toks.len() ==> #[trigger] toks@[j].end <= i,
            forall|j: int| 0 <= j < toks.len() ==> #[trigger] toks@[j].kind != TokenKind::EndOfProgram,
            forall|k: int|
                0 <= k < i && !is_space(#[trigger] src@[k]) ==> exists|j: int|
                    0 <= j < toks.len() && #[trigger] toks@[j].start <= k < toks@[j].end,
            forall|j: int, k: int|
                #![trigger toks@[j], src@[k]]
                0 <= j < toks.len() && toks@[j].kind == TokenKind::Identifier && toks@[j].start <= k
                    < toks@[j].end ==> is_word_byte(src@[k]),
            forall|j: int|
                0 <= j < toks.len() && (#[trigger] text_of(toks@[j].kind)) is Some ==> src@.subrange(
                    toks@[j].start as int,
                    toks@[j].end as int,
                ) == text_of(toks@[j].kind).unwrap(),
            spec_tokens(src@) == toks@ + spec_tokens_from(src@, i as int),
        decreases n - i,
    {
        let b = src[i];
        let ghost rest = spec_tokens_from(src@, i as int);
        if space(b) {
            i = i + 1;
        } else {
            let start = i;
            proof {
                lemma_word_end_bounds(src@, start + 1);
            }
            let kind = if word_start(b) {
                i = i + 1;
                while i < n && word_byte(src[i])
                    invariant
                        n == src@.len(),
                        start < i <= n,
                        forall|k: int| start <= k < i ==> is_word_byte(#[trigger] src@[k]),
                        word_end(src@, start + 1) == word_end(src@, i as int),
                    decreases n - i,
                {
                    i = i + 1;
                }
                word_kind(src, start, i)
            } else {
                i = i + 1;
                let k = punctuation(b);
                assert(src@.subrange(start as int, i as int) =~= seq![b]);
                k
            };
            let ghost before = toks@;
            toks.push(Token { kind, start, end: i });
            proof {
                assert(rest == seq![toks@.last()] + spec_tokens_from(src@, i as int));
                assert(toks@ =~= before.push(toks@.last()));
                assert(before + rest =~= toks@ + spec_tokens_from(src@, i as int));
                let last = toks@.len() - 1;
                assert(toks@[last].start <= start < toks@[last].end);
                assert forall|k: int| 0 <= k < i && !is_space(#[trigger] src@[k]) implies exists|j: int|
                    0 <= j < toks.len() && #[trigger] toks@[j].start <= k < toks@[j].end by {
                    if k < start {
                        let j = choose|j: int| 0 <= j < before.len() && #[trigger] before[j].start <= k < before[j].end;
                        assert(toks@[j] == before[j]);
                    } else {
                        assert(toks@[last].start <= k < toks@[last].end);
                    }
                }
            }
        }
    }
    assert(toks@ + spec_tokens_from(src@, i as int) =~= toks@);
    toks
}

} // verus!
