//! Tokens: the lexemes that a parser sees, with what they say.

use crate::lexer::{
    bytes_of, fault_view, in_text, is_scan, lemma_boundary_within, lemma_scan_of, lexed_at, scan,
    scan_of, scan_pos, FaultView, LexFault, Lexeme, LexemeKind,
};
use vstd::prelude::*;
use vstd::utf8::decode_utf8;
use wast::lexer::TokenKind;
use wast::parser::ParseBuffer;

verus! {

/// A token of a specification text.
#[derive(Clone, PartialEq, Eq, Debug)]
pub enum Token {
    /// `(`
    LParen,
    /// `)`
    RParen,
    /// An identifier, without its `$`.
    Id(String),
    /// An identifier that names nothing, with the reason.
    BadId(String),
    /// A keyword.
    Keyword(String),
    /// An integer literal, with its value if this is a `u32`.
    Integer(Option<u32>),
    /// Any other token.
    Other,
}

/// The mathematical value of a [`Token`].
pub enum TokenView {
    LParen,
    RParen,
    Id(Seq<char>),
    BadId(Seq<char>),
    Keyword(Seq<char>),
    Integer(Option<u32>),
    Other,
}

impl View for Token {
    type V = TokenView;

    open spec fn view(&self) -> TokenView {
        match self {
            Token::LParen => TokenView::LParen,
            Token::RParen => TokenView::RParen,
            Token::Id(s) => TokenView::Id(s@),
            Token::BadId(s) => TokenView::BadId(s@),
            Token::Keyword(s) => TokenView::Keyword(s@),
            Token::Integer(n) => TokenView::Integer(*n),
            Token::Other => TokenView::Other,
        }
    }
}

/// A token and the byte at which it starts.
#[derive(Clone, PartialEq, Eq, Debug)]
pub struct Spanned {
    pub token: Token,
    pub offset: usize,
}

/// The mathematical value of a [`Spanned`] token.
pub struct SpannedView {
    pub token: TokenView,
    pub offset: usize,
}

impl View for Spanned {
    type V = SpannedView;

    open spec fn view(&self) -> SpannedView {
        SpannedView { token: self.token@, offset: self.offset }
    }
}

/// The tokens of a text.  They end at the end of the text, whose length is
/// `end`, or, where `fault` is given, at a place where the text cannot be cut
/// further.
#[derive(Clone, PartialEq, Eq, Debug)]
pub struct TokenStream {
    pub tokens: Vec<Spanned>,
    pub end: usize,
    pub fault: Option<LexFault>,
}

/// The mathematical value of a [`TokenStream`].
pub struct StreamView {
    pub tokens: Seq<SpannedView>,
    pub end: usize,
    pub fault: Option<FaultView>,
}

/// The values of a sequence of tokens.
pub open spec fn spanned_views(tokens: Seq<Spanned>) -> Seq<SpannedView> {
    tokens.map_values(|t: Spanned| t@)
}

impl View for TokenStream {
    type V = StreamView;

    open spec fn view(&self) -> StreamView {
        StreamView {
            tokens: spanned_views(self.tokens@),
            end: self.end,
            fault: fault_view(self.fault),
        }
    }
}

impl StreamView {
    /// The stream with more tokens in front.
    pub open spec fn after(self, tokens: Seq<SpannedView>) -> StreamView {
        StreamView { tokens: tokens + self.tokens, ..self }
    }
}

/// The characters that a lexeme covers.
pub open spec fn source_of(text: Seq<char>, lexeme: Lexeme) -> Seq<char> {
    decode_utf8(bytes_of(text).subrange(lexeme.offset as int, lexeme.offset + lexeme.len))
}

/// What `wast` takes an identifier lexeme to name: the name, or the message
/// of its error.
pub uninterp spec fn id_named(text: Seq<char>, offset: usize, len: u32) -> Result<
    Seq<char>,
    Seq<char>,
>;

/// What `wast` takes an annotation lexeme to name: the name, or the message
/// of its error.
pub uninterp spec fn annotation_named(text: Seq<char>, offset: usize, len: u32) -> Result<
    Seq<char>,
    Seq<char>,
>;

/// The `u32` that `wast` reads in a text, if it reads one.
pub uninterp spec fn u32_of(source: Seq<char>) -> Option<u32>;

/// `wast::lexer::Token::src`: the part of the text that a lexeme covers.  The
/// crate slices the text at the lexeme's two ends.
#[verifier::external_body]
fn source_text(text: &str, lexeme: Lexeme) -> (source: String)
    requires
        in_text(text@, lexeme),
    ensures
        source@ == source_of(text@, lexeme),
{
    let token = wast::lexer::Token { kind: TokenKind::Reserved, offset: lexeme.offset, len: lexeme.len };
    token.src(text).to_string()
}

/// `wast::lexer::Token::id`: the name of an identifier lexeme without its
/// `$`, or the message of the crate's error.  The crate slices the text at
/// the lexeme's two ends and expects the lexeme to be an identifier.
#[verifier::external_body]
fn id_name(text: &str, lexeme: Lexeme) -> (name: Result<String, String>)
    requires
        in_text(text@, lexeme),
        lexeme.kind is Id,
        lexed_at(text@, lexeme.offset) == Ok::<Option<Lexeme>, FaultView>(Some(lexeme)),
    ensures
        match name {
            Ok(n) => id_named(text@, lexeme.offset, lexeme.len) == Ok::<Seq<char>, Seq<char>>(n@),
            Err(m) => id_named(text@, lexeme.offset, lexeme.len) == Err::<Seq<char>, Seq<char>>(
                m@,
            ),
        },
{
    let token = wast::lexer::Token { kind: TokenKind::Id, offset: lexeme.offset, len: lexeme.len };
    match token.id(text) {
        Ok(name) => Ok(name.into_owned()),
        Err(e) => Err(e.message()),
    }
}

/// `wast::lexer::Token::annotation`: the name of an annotation lexeme without
/// its `@`, or the message of the crate's error.  The crate slices the text
/// at the lexeme's two ends and expects the lexeme to be an annotation.
#[verifier::external_body]
fn annotation_name(text: &str, lexeme: Lexeme) -> (name: Result<String, String>)
    requires
        in_text(text@, lexeme),
        lexeme.kind is Annotation,
        lexed_at(text@, lexeme.offset) == Ok::<Option<Lexeme>, FaultView>(Some(lexeme)),
    ensures
        match name {
            Ok(n) => annotation_named(text@, lexeme.offset, lexeme.len) == Ok::<
                Seq<char>,
                Seq<char>,
            >(n@),
            Err(m) => annotation_named(text@, lexeme.offset, lexeme.len) == Err::<
                Seq<char>,
                Seq<char>,
            >(m@),
        },
{
    let token = wast::lexer::Token { kind: TokenKind::Annotation, offset: lexeme.offset, len: lexeme.len };
    match token.annotation(text) {
        Ok(name) => Ok(name.into_owned()),
        Err(e) => Err(e.message()),
    }
}

/// `wast::parser::parse::<u32>` on a buffer of the text: the number that the
/// text is, or `None` where the crate reports an error.  The crate counts a
/// lexeme's bytes in 32 bits.
#[verifier::external_body]
fn read_u32(source: &str) -> (value: Option<u32>)
    requires
        bytes_of(source@).len() <= u32::MAX,
    ensures
        value == u32_of(source@),
{
    match ParseBuffer::new(source) {
        Ok(buffer) => wast::parser::parse::<u32>(&buffer).ok(),
        Err(_) => None,
    }
}


/// The token that a lexeme stands for.
pub open spec fn token_of(text: Seq<char>, lexeme: Lexeme) -> TokenView {
    match lexeme.kind {
        LexemeKind::LParen => TokenView::LParen,
        LexemeKind::RParen => TokenView::RParen,
        LexemeKind::Id => match id_named(text, lexeme.offset, lexeme.len) {
            Ok(name) => TokenView::Id(name),
            Err(message) => TokenView::BadId(message),
        },
        LexemeKind::Keyword => TokenView::Keyword(source_of(text, lexeme)),
        LexemeKind::Integer => TokenView::Integer(u32_of(source_of(text, lexeme))),
        _ => TokenView::Other,
    }
}

/// The message of the fault for an annotation that no `)` closes.
pub open spec fn unclosed_annotation() -> Seq<char> {
    "unclosed annotation"@
}

/// Where an annotation ends: the place after the `)` that closes it, given
/// that `depth` parentheses are open at `from`; `None` if the lexemes end
/// before.
pub open spec fn annotation_close(lexemes: Seq<Lexeme>, from: int, depth: nat) -> Option<int>
    decreases lexemes.len() - from,
{
    if from < 0 || from >= lexemes.len() {
        None
    } else if lexemes[from].kind is LParen {
        annotation_close(lexemes, from + 1, depth + 1)
    } else if lexemes[from].kind is RParen {
        if depth <= 1 {
            Some(from + 1)
        } else {
            annotation_close(lexemes, from + 1, (depth - 1) as nat)
        }
    } else {
        annotation_close(lexemes, from + 1, depth)
    }
}

/// Whether the byte at `pos` is `@`.
pub open spec fn at_sign_at(text: Seq<char>, pos: usize) -> bool {
    pos < bytes_of(text).len() && bytes_of(text)[pos as int] == 64
}

/// A stream that ends in a fault at once.
pub open spec fn faulted(end: usize, fault: FaultView) -> StreamView {
    StreamView { tokens: Seq::empty(), end, fault: Some(fault) }
}

/// The tokens that the lexemes from `from` on stand for.  White space and
/// comments are no tokens.  Neither is an annotation, which is a `(` with an
/// annotation name right behind it and all that follows up to the `)` that
/// closes it: an annotation whose name is refused, or which is not closed,
/// ends the stream in a fault; so does a `(` right before a fault at an `@`.
#[verifier::opaque]
pub open spec fn significant(
    text: Seq<char>,
    lexemes: Seq<Lexeme>,
    fault: Option<FaultView>,
    from: int,
) -> StreamView
    decreases lexemes.len() - from,
{
    let end = scan_pos(lexemes, lexemes.len() as int);
    if from < 0 || from >= lexemes.len() {
        StreamView { tokens: Seq::empty(), end, fault }
    } else {
        let lexeme = lexemes[from];
        if lexeme.kind is Blank {
            significant(text, lexemes, fault, from + 1)
        } else if lexeme.kind is LParen && from + 1 < lexemes.len() && lexemes[from
            + 1].kind is Annotation {
            let name = lexemes[from + 1];
            match annotation_named(text, name.offset, name.len) {
                Err(message) => faulted(end, FaultView { offset: name.offset, message }),
                Ok(_) => match annotation_close(lexemes, from + 1, 1) {
                    Some(next) => if from < next <= lexemes.len() {
                        significant(text, lexemes, fault, next)
                    } else {
                        faulted(end, FaultView { offset: name.offset, message: unclosed_annotation() })
                    },
                    None => faulted(
                        end,
                        match fault {
                            Some(f) => f,
                            None => FaultView {
                                offset: name.offset,
                                message: unclosed_annotation(),
                            },
                        },
                    ),
                },
            }
        } else if lexeme.kind is LParen && from + 1 == lexemes.len() && fault is Some
            && at_sign_at(text, end) {
            faulted(end, fault->Some_0)
        } else {
            significant(text, lexemes, fault, from + 1).after(
                seq![SpannedView { token: token_of(text, lexeme), offset: lexeme.offset }],
            )
        }
    }
}

/// The tokens of a text.
pub open spec fn tokens_of(text: Seq<char>) -> StreamView {
    significant(text, scan_of(text).0, scan_of(text).1, 0)
}

/// The place after the `)` that closes an annotation, if there is one.
fn close_annotation(lexemes: &Vec<Lexeme>, from: usize) -> (next: Option<usize>)
    requires
        0 < from <= lexemes.len(),
    ensures
        match next {
            Some(n) => annotation_close(lexemes@, from as int, 1) == Some(n as int) && from < n
                <= lexemes.len(),
            None => annotation_close(lexemes@, from as int, 1) is None,
        },
{
    let mut at: usize = from;
    let mut depth: usize = 1;
    while at < lexemes.len()
        invariant
            0 < from <= at <= lexemes.len(),
            1 <= depth <= at - from + 1,
            annotation_close(lexemes@, from as int, 1) == annotation_close(
                lexemes@,
                at as int,
                depth as nat,
            ),
        decreases lexemes.len() - at,
    {
        match lexemes[at].kind {
            LexemeKind::LParen => {
                depth = depth + 1;
            },
            LexemeKind::RParen => {
                if depth <= 1 {
                    return Some(at + 1);
                }
                depth = depth - 1;
            },
            _ => {},
        }
        at = at + 1;
    }
    None
}

/// The token that a lexeme stands for.
fn token_at(text: &str, lexeme: Lexeme) -> (token: Token)
    requires
        in_text(text@, lexeme),
        lexed_at(text@, lexeme.offset) == Ok::<Option<Lexeme>, FaultView>(Some(lexeme)),
    ensures
        token@ == token_of(text@, lexeme),
{
    match lexeme.kind {
        LexemeKind::LParen => Token::LParen,
        LexemeKind::RParen => Token::RParen,
        LexemeKind::Id => match id_name(text, lexeme) {
            Ok(name) => Token::Id(name),
            Err(message) => Token::BadId(message),
        },
        LexemeKind::Keyword => Token::Keyword(source_text(text, lexeme)),
        LexemeKind::Integer => {
            let source = source_text(text, lexeme);
            proof {
                lemma_source_len(text@, lexeme);
            }
            Token::Integer(read_u32(source.as_str()))
        },
        _ => Token::Other,
    }
}

/// The part of a text that a lexeme covers has as many bytes as the lexeme.
proof fn lemma_source_len(text: Seq<char>, lexeme: Lexeme)
    requires
        in_text(text, lexeme),
    ensures
        bytes_of(source_of(text, lexeme)).len() == lexeme.len,
{
    let bytes = bytes_of(text);
    let from = lexeme.offset as int;
    let to = lexeme.offset + lexeme.len;
    vstd::utf8::encode_utf8_valid_utf8(text);
    lemma_boundary_within(text, to);
    vstd::utf8::valid_utf8_split(bytes, to);
    let head = bytes.subrange(0, to);
    assert(vstd::utf8::is_char_boundary(head, from)) by {
        lemma_boundary_of_prefix(bytes, to, from);
    }
    vstd::utf8::valid_utf8_split(head, from);
    assert(head.subrange(from, head.len() as int) =~= bytes.subrange(from, to));
    vstd::utf8::decode_utf8_encode_utf8(bytes.subrange(from, to));
}

/// A place between two characters of a text is one in every prefix of the
/// text that reaches it and ends between two characters.
proof fn lemma_boundary_of_prefix(bytes: Seq<u8>, to: int, index: int)
    requires
        vstd::utf8::valid_utf8(bytes),
        0 <= index <= to <= bytes.len(),
        vstd::utf8::is_char_boundary(bytes, index),
        vstd::utf8::is_char_boundary(bytes, to),
    ensures
        vstd::utf8::is_char_boundary(bytes.subrange(0, to), index),
{
    let head = bytes.subrange(0, to);
    vstd::utf8::valid_utf8_split(bytes, to);
    if index == 0 {
    } else if index == to {
        vstd::utf8::is_char_boundary_start_end_of_seq(head);
    } else {
        vstd::utf8::is_char_boundary_iff_not_is_continuation_byte(bytes, index);
        vstd::utf8::is_char_boundary_iff_not_is_continuation_byte(head, index);
    }
}

/// What a lexeme is to the stream of tokens.
enum Step {
    /// A token.
    Token(Spanned),
    /// No token: the tokens go on at a later place.
    Skip(usize),
    /// The end of the stream, in a fault.
    End(LexFault),
}

/// What the tokens from `at` on are, given those that follow a step from
/// there.
spec fn steps_to(
    step: Step,
    text: Seq<char>,
    lexemes: Seq<Lexeme>,
    fault: Option<FaultView>,
    at: int,
) -> bool {
    match step {
        Step::Token(token) => significant(text, lexemes, fault, at) == significant(
            text,
            lexemes,
            fault,
            at + 1,
        ).after(seq![token@]),
        Step::Skip(next) => at < next <= lexemes.len() && significant(text, lexemes, fault, at)
            == significant(text, lexemes, fault, next as int),
        Step::End(f) => significant(text, lexemes, fault, at) == faulted(
            scan_pos(lexemes, lexemes.len() as int),
            f@,
        ),
    }
}

/// Whether a `(` is a token, starts an annotation, or ends the stream.
fn paren_at(text: &str, lexemes: &Vec<Lexeme>, fault: &Option<LexFault>, at: usize) -> (step:
    Step)
    requires
        is_scan(text@, lexemes@, fault_view(*fault)),
        at < lexemes.len(),
        lexemes[at as int].kind is LParen,
    ensures
        steps_to(step, text@, lexemes@, fault_view(*fault), at as int),
{
    let paren = Spanned { token: Token::LParen, offset: lexemes[at].offset };
    reveal(significant);
    if at + 1 < lexemes.len() {
        let name = lexemes[at + 1];
        match name.kind {
            LexemeKind::Annotation => {
                match annotation_name(text, name) {
                    Err(message) => Step::End(LexFault { offset: name.offset, message }),
                    Ok(_) => match close_annotation(lexemes, at + 1) {
                        Some(next) => Step::Skip(next),
                        None => Step::End(
                            match fault {
                                Some(f) => f.duplicate(),
                                None => LexFault {
                                    offset: name.offset,
                                    message: "unclosed annotation".to_owned(),
                                },
                            },
                        ),
                    },
                }
            },
            _ => Step::Token(paren),
        }
    } else {
        let last = lexemes[at];
        let bytes = text.as_bytes();
        let total: usize = bytes.len();
        proof {
            assert(in_text(text@, lexemes@[at as int]));
            lemma_boundary_within(text@, last.offset + last.len);
        }
        let end: usize = last.offset + last.len as usize;
        match fault {
            Some(f) => {
                if end < total && bytes[end] == 64u8 {
                    Step::End(f.duplicate())
                } else {
                    Step::Token(paren)
                }
            },
            None => Step::Token(paren),
        }
    }
}

/// What the lexeme at a place is to the stream of tokens.
fn step_at(text: &str, lexemes: &Vec<Lexeme>, fault: &Option<LexFault>, at: usize) -> (step:
    Step)
    requires
        is_scan(text@, lexemes@, fault_view(*fault)),
        at < lexemes.len(),
    ensures
        steps_to(step, text@, lexemes@, fault_view(*fault), at as int),
{
    let lexeme = lexemes[at];
    reveal(significant);
    match lexeme.kind {
        LexemeKind::Blank => Step::Skip(at + 1),
        LexemeKind::LParen => paren_at(text, lexemes, fault, at),
        _ => {
            assert(in_text(text@, lexemes@[at as int]));
            Step::Token(Spanned { token: token_at(text, lexeme), offset: lexeme.offset })
        },
    }
}

/// The offset at which the lexemes end.
fn end_of(text: &str, lexemes: &Vec<Lexeme>, fault: &Option<LexFault>) -> (end: usize)
    requires
        is_scan(text@, lexemes@, fault_view(*fault)),
    ensures
        end == scan_pos(lexemes@, lexemes@.len() as int),
{
    if lexemes.len() == 0 {
        0
    } else {
        let last = lexemes[lexemes.len() - 1];
        let total: usize = text.as_bytes().len();
        proof {
            assert(in_text(text@, lexemes@[lexemes.len() - 1]));
            lemma_boundary_within(text@, last.offset + last.len);
        }
        last.offset + last.len as usize
    }
}

/// The tokens that the lexemes of a text stand for.
pub fn tokenize(text: &str, lexemes: &Vec<Lexeme>, fault: Option<LexFault>) -> (stream:
    TokenStream)
    requires
        is_scan(text@, lexemes@, fault_view(fault)),
    ensures
        stream@ == significant(text@, lexemes@, fault_view(fault), 0),
{
    let ghost whole = significant(text@, lexemes@, fault_view(fault), 0);
    let end: usize = end_of(text, lexemes, &fault);
    let mut tokens: Vec<Spanned> = Vec::new();
    let mut at: usize = 0;
    assert(whole.tokens =~= whole.after(spanned_views(tokens@)).tokens);
    while at < lexemes.len()
        invariant
            at <= lexemes.len(),
            end == scan_pos(lexemes@, lexemes@.len() as int),
            is_scan(text@, lexemes@, fault_view(fault)),
            whole == significant(text@, lexemes@, fault_view(fault), 0),
            whole == significant(text@, lexemes@, fault_view(fault), at as int).after(
                spanned_views(tokens@),
            ),
        decreases lexemes.len() - at,
    {
        let ghost rest = significant(text@, lexemes@, fault_view(fault), at as int);
        let ghost seen = spanned_views(tokens@);
        match step_at(text, lexemes, &fault, at) {
            Step::Skip(next) => {
                at = next;
            },
            Step::End(f) => {
                let stream = TokenStream { tokens, end, fault: Some(f) };
                assert(stream@.tokens =~= rest.after(seen).tokens);
                return stream;
            },
            Step::Token(token) => {
                tokens.push(token);
                at = at + 1;
                proof {
                    let next = significant(text@, lexemes@, fault_view(fault), at as int);
                    assert(spanned_views(tokens@) =~= seen + seq![token@]);
                    assert(next.after(seen + seq![token@]).tokens =~= next.after(
                        seq![token@],
                    ).after(seen).tokens);
                }
            },
        }
    }
    let stream = TokenStream { tokens, end, fault };
    reveal(significant);
    assert(stream@.tokens =~= significant(
        text@,
        lexemes@,
        fault_view(fault),
        at as int,
    ).after(spanned_views(tokens@)).tokens);
    stream
}

/// The tokens of a text.
pub fn tokens(text: &str) -> (stream: TokenStream)
    requires
        bytes_of(text@).len() <= u32::MAX,
    ensures
        stream@ == tokens_of(text@),
{
    let (lexemes, fault) = scan(text);
    proof {
        lemma_scan_of(text@, lexemes@, fault_view(fault));
    }
    tokenize(text, &lexemes, fault)
}

} // verus!
