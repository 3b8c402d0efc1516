//! Lexemes: the pieces into which the `wast` lexer cuts a text.

use vstd::prelude::*;
use vstd::utf8::{encode_utf8, is_char_boundary};
use wast::lexer::{Lexer, TokenKind};

verus! {

/// What a lexeme is.
#[derive(Clone, Copy, PartialEq, Eq, Debug)]
pub enum LexemeKind {
    /// `(`
    LParen,
    /// `)`
    RParen,
    /// An identifier, such as `$group`.
    Id,
    /// A keyword: a word that starts with a lower-case letter.
    Keyword,
    /// An annotation name, such as `@note`.
    Annotation,
    /// An integer literal.
    Integer,
    /// White space or a comment.
    Blank,
    /// Anything else: a string, a float, a reserved word.
    Other,
}

/// One piece of a text: what it is and which bytes it covers.
#[derive(Clone, Copy, PartialEq, Eq, Debug)]
pub struct Lexeme {
    pub kind: LexemeKind,
    pub offset: usize,
    pub len: u32,
}

/// Why a text could not be cut further, and at which byte.
#[derive(Clone, PartialEq, Eq, Debug)]
pub struct LexFault {
    pub offset: usize,
    pub message: String,
}

/// The mathematical value of a [`LexFault`].
pub struct FaultView {
    pub offset: usize,
    pub message: Seq<char>,
}

impl View for LexFault {
    type V = FaultView;

    open spec fn view(&self) -> FaultView {
        FaultView { offset: self.offset, message: self.message@ }
    }
}

impl LexFault {
    /// A copy of this fault.
    pub fn duplicate(&self) -> (copy: LexFault)
        ensures
            copy@ == self@,
    {
        LexFault { offset: self.offset, message: self.message.clone() }
    }
}

/// The value of a fault that may be absent.
pub open spec fn fault_view(fault: Option<LexFault>) -> Option<FaultView> {
    match fault {
        Some(f) => Some(f@),
        None => None,
    }
}

/// The bytes of a text.
pub open spec fn bytes_of(text: Seq<char>) -> Seq<u8> {
    encode_utf8(text)
}

/// Whether a lexeme covers at least one byte of the text and both its ends
/// stand between two characters.
pub open spec fn in_text(text: Seq<char>, lexeme: Lexeme) -> bool {
    &&& lexeme.len > 0
    &&& is_char_boundary(bytes_of(text), lexeme.offset as int)
    &&& is_char_boundary(bytes_of(text), lexeme.offset + lexeme.len)
}

/// What the `wast` lexer finds in a text at a byte position: a lexeme,
/// the end of the text, or a fault.
pub uninterp spec fn lexed_at(text: Seq<char>, pos: usize) -> Result<Option<Lexeme>, FaultView>;

/// `wast::lexer::Lexer::parse`: the lexeme that starts at byte `pos`, `None`
/// at the end of the text, or the lexer's error with its position and
/// message.  A lexeme starts at `pos`, is not empty, and ends within the
/// text between two characters.  The lexer counts a lexeme's bytes in 32 bits
/// and slices the text at `pos`.
#[verifier::external_body]
fn lex_at(text: &str, pos: usize) -> (found: Result<Option<Lexeme>, LexFault>)
    requires
        bytes_of(text@).len() <= u32::MAX,
        is_char_boundary(bytes_of(text@), pos as int),
    ensures
        match found {
            Ok(lexeme) => lexed_at(text@, pos) == Ok::<Option<Lexeme>, FaultView>(lexeme),
            Err(fault) => lexed_at(text@, pos) == Err::<Option<Lexeme>, FaultView>(fault@),
        },
        found matches Ok(Some(lexeme)) ==> lexeme.offset == pos && in_text(text@, lexeme),
{
    let mut end = pos;
    match Lexer::new(text).parse(&mut end) {
        Err(e) => Err(LexFault { offset: e.span().offset(), message: e.message() }),
        Ok(None) => Ok(None),
        Ok(Some(t)) => Ok(Some(Lexeme { offset: t.offset, len: t.len, kind: match t.kind {
            TokenKind::LParen => LexemeKind::LParen,
            TokenKind::RParen => LexemeKind::RParen,
            TokenKind::Id => LexemeKind::Id,
            TokenKind::Keyword => LexemeKind::Keyword,
            TokenKind::Annotation => LexemeKind::Annotation,
            TokenKind::Integer(_) => LexemeKind::Integer,
            TokenKind::Whitespace | TokenKind::LineComment | TokenKind::BlockComment => LexemeKind::Blank,
            TokenKind::String | TokenKind::Reserved | TokenKind::Float(_) => LexemeKind::Other,
        } })),
    }
}

/// A place between two characters of a text lies within the text.
pub proof fn lemma_boundary_within(text: Seq<char>, index: int)
    requires
        is_char_boundary(bytes_of(text), index),
    ensures
        0 <= index <= bytes_of(text).len(),
{
    vstd::utf8::encode_utf8_valid_utf8(text);
}

/// Where the lexeme after the first `count` ones starts.
pub open spec fn scan_pos(lexemes: Seq<Lexeme>, count: int) -> usize {
    if count <= 0 {
        0
    } else {
        (lexemes[count - 1].offset + lexemes[count - 1].len) as usize
    }
}

/// Whether `lexemes` are what the lexer finds from the start of the text,
/// one lexeme after the other, up to the end of the text (`fault` is `None`)
/// or up to the place where it fails.
pub open spec fn is_scan(text: Seq<char>, lexemes: Seq<Lexeme>, fault: Option<FaultView>) -> bool {
    &&& forall|i: int|
        0 <= i < lexemes.len() ==> {
            &&& lexed_at(text, scan_pos(lexemes, i)) == Ok::<Option<Lexeme>, FaultView>(
                Some(#[trigger] lexemes[i]),
            )
            &&& lexemes[i].offset == scan_pos(lexemes, i)
            &&& in_text(text, lexemes[i])
        }
    &&& lexed_at(text, scan_pos(lexemes, lexemes.len() as int)) == match fault {
        None => Ok::<Option<Lexeme>, FaultView>(None),
        Some(f) => Err::<Option<Lexeme>, FaultView>(f),
    }
}

/// Cuts a text into lexemes, from its start to its end or to the first
/// fault.
pub fn scan(text: &str) -> (found: (Vec<Lexeme>, Option<LexFault>))
    requires
        bytes_of(text@).len() <= u32::MAX,
    ensures
        is_scan(text@, found.0@, fault_view(found.1)),
{
    let mut lexemes: Vec<Lexeme> = Vec::new();
    let mut pos: usize = 0;
    proof {
        vstd::utf8::encode_utf8_valid_utf8(text@);
        vstd::utf8::is_char_boundary_start_end_of_seq(bytes_of(text@));
    }
    loop
        invariant
            bytes_of(text@).len() <= u32::MAX,
            pos <= bytes_of(text@).len(),
            pos == scan_pos(lexemes@, lexemes@.len() as int),
            is_char_boundary(bytes_of(text@), pos as int),
            forall|i: int|
                0 <= i < lexemes@.len() ==> {
                    &&& lexed_at(text@, scan_pos(lexemes@, i)) == Ok::<Option<Lexeme>, FaultView>(
                        Some(#[trigger] lexemes@[i]),
                    )
                    &&& lexemes@[i].offset == scan_pos(lexemes@, i)
                    &&& in_text(text@, lexemes@[i])
                },
        decreases bytes_of(text@).len() - pos,
    {
        match lex_at(text, pos) {
            Ok(Some(lexeme)) => {
                let ghost before = lexemes@;
                proof {
                    lemma_boundary_within(text@, pos + lexeme.len);
                }
                lexemes.push(lexeme);
                pos = pos + lexeme.len as usize;
                assert forall|i: int| 0 <= i < lexemes@.len() implies {
                    &&& lexed_at(text@, scan_pos(lexemes@, i)) == Ok::<Option<Lexeme>, FaultView>(
                        Some(#[trigger] lexemes@[i]),
                    )
                    &&& lexemes@[i].offset == scan_pos(lexemes@, i)
                    &&& in_text(text@, lexemes@[i])
                } by {
                    if i < before.len() {
                        assert(lexemes@[i] == before[i]);
                        assert(scan_pos(lexemes@, i) == scan_pos(before, i));
                    }
                }
            },
            Ok(None) => {
                return (lexemes, None);
            },
            Err(fault) => {
                return (lexemes, Some(fault));
            },
        }
    }
}


/// A text is cut in one way only.
pub proof fn lemma_scan_unique(
    text: Seq<char>,
    lexemes: Seq<Lexeme>,
    fault: Option<FaultView>,
    others: Seq<Lexeme>,
    other_fault: Option<FaultView>,
)
    requires
        is_scan(text, lexemes, fault),
        is_scan(text, others, other_fault),
    ensures
        lexemes == others,
        fault == other_fault,
{
    lemma_scan_agrees(text, lexemes, fault, others, other_fault, lexemes.len() as int);
    lemma_scan_agrees(text, others, other_fault, lexemes, fault, others.len() as int);
    assert(lexemes =~= others);
}

/// Two ways to cut a text agree on their first `count` lexemes.
proof fn lemma_scan_agrees(
    text: Seq<char>,
    lexemes: Seq<Lexeme>,
    fault: Option<FaultView>,
    others: Seq<Lexeme>,
    other_fault: Option<FaultView>,
    count: int,
)
    requires
        is_scan(text, lexemes, fault),
        is_scan(text, others, other_fault),
        0 <= count <= lexemes.len(),
    ensures
        count <= others.len(),
        forall|i: int| 0 <= i < count ==> lexemes[i] == others[i],
    decreases count,
{
    if count > 0 {
        lemma_scan_agrees(text, lexemes, fault, others, other_fault, count - 1);
        let last = count - 1;
        assert(scan_pos(lexemes, last) == scan_pos(others, last));
        assert(lexed_at(text, scan_pos(lexemes, last)) == Ok::<Option<Lexeme>, FaultView>(
            Some(lexemes[last]),
        ));
        if last == others.len() {
            assert(false);
        }
        assert(lexed_at(text, scan_pos(others, last)) == Ok::<Option<Lexeme>, FaultView>(
            Some(others[last]),
        ));
    }
}

/// The lexemes of a text and the fault, if any, at which they end.
pub open spec fn scan_of(text: Seq<char>) -> (Seq<Lexeme>, Option<FaultView>) {
    choose|found: (Seq<Lexeme>, Option<FaultView>)| is_scan(text, found.0, found.1)
}

/// What [`scan`] finds is the scan of the text.
pub proof fn lemma_scan_of(text: Seq<char>, lexemes: Seq<Lexeme>, fault: Option<FaultView>)
    requires
        is_scan(text, lexemes, fault),
    ensures
        scan_of(text) == (lexemes, fault),
{
    let found = (lexemes, fault);
    assert(is_scan(text, found.0, found.1));
    let chosen = scan_of(text);
    lemma_scan_unique(text, lexemes, fault, chosen.0, chosen.1);
}

} // verus!
