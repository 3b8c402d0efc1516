//! The grammar of specifications: from tokens to abstract syntax.

use crate::ast::{
    name_view, term_views, trope_views, ChoiceAst, EntitiesAst, SequenceAst, SequenceView, SiteAst,
    SiteAstView, TriggerAst, TriggerView, Trope, TropeView,
};
use crate::entity::{entity_views, Entity, EntityView};
use crate::token::{StreamView, Token, TokenStream, TokenView};
use vstd::prelude::*;

verus! {

/// What a parser was looking for where it gave up.
#[derive(Clone, Copy, PartialEq, Eq, Debug)]
pub enum Expected {
    /// `(`
    LParen,
    /// `)`
    RParen,
    /// An identifier that names a trope.
    Identifier,
    /// One of the keywords `trigger`, `sequence`, `entities`, `choice`.
    Trope,
    /// An identifier, a name or a number.
    Entity,
    /// A number.
    U32,
    /// A number that fits in 32 bits.
    U32InRange,
    /// The end of the text.
    EndOfInput,
}

/// Why a text is no specification.
#[derive(Clone, PartialEq, Eq, Debug)]
pub enum Reason {
    /// The token at the offset is not what the grammar asks for.
    Expected(Expected),
    /// The text cannot be cut into tokens at the offset.
    Lex(String),
}

/// The mathematical value of a [`Reason`].
pub enum ReasonView {
    Expected(Expected),
    Lex(Seq<char>),
}

/// A syntax error: the byte offset at which the text stops being a
/// specification, and why.
#[derive(Clone, PartialEq, Eq, Debug)]
pub struct SyntaxError {
    pub offset: usize,
    pub reason: Reason,
}

/// The mathematical value of a [`SyntaxError`].
pub struct SyntaxErrorView {
    pub offset: usize,
    pub reason: ReasonView,
}

impl View for SyntaxError {
    type V = SyntaxErrorView;

    open spec fn view(&self) -> SyntaxErrorView {
        SyntaxErrorView {
            offset: self.offset,
            reason: match self.reason {
                Reason::Expected(e) => ReasonView::Expected(e),
                Reason::Lex(m) => ReasonView::Lex(m@),
            },
        }
    }
}

impl Expected {
    /// What the parser was looking for, in words.
    pub open spec fn words(self) -> Seq<char> {
        match self {
            Expected::LParen => "expected `(`"@,
            Expected::RParen => "expected `)`"@,
            Expected::Identifier => "expected an identifier"@,
            Expected::Trope =>
                "unexpected token, expected one of: a trigger, a sequence, entities, a choice"@,
            Expected::Entity => "unexpected token, expected one of: an identifier, a name, u32"@,
            Expected::U32 => "expected a u32"@,
            Expected::U32InRange => "invalid u32 number: constant out of range"@,
            Expected::EndOfInput => "extra tokens remaining after parse"@,
        }
    }

    /// What the parser was looking for, in words.
    pub fn description(&self) -> (text: &'static str)
        ensures
            text@ == self.words(),
    {
        match self {
            Expected::LParen => "expected `(`",
            Expected::RParen => "expected `)`",
            Expected::Identifier => "expected an identifier",
            Expected::Trope =>
                "unexpected token, expected one of: a trigger, a sequence, entities, a choice",
            Expected::Entity => "unexpected token, expected one of: an identifier, a name, u32",
            Expected::U32 => "expected a u32",
            Expected::U32InRange => "invalid u32 number: constant out of range",
            Expected::EndOfInput => "extra tokens remaining after parse",
        }
    }
}

impl SyntaxErrorView {
    /// The message of the error: what was expected, or why the text could
    /// not be cut.
    pub open spec fn message(self) -> Seq<char> {
        match self.reason {
            ReasonView::Expected(e) => e.words(),
            ReasonView::Lex(m) => m,
        }
    }
}

impl SyntaxError {
    /// The message of the error, without its position.
    pub fn message(&self) -> (text: String)
        ensures
            text@ == self@.message(),
    {
        match &self.reason {
            Reason::Expected(e) => e.description().to_owned(),
            Reason::Lex(m) => m.clone(),
        }
    }
}

/// What a parser returns: a value and the place of the next token, or an
/// error.
pub type Parsed<T> = Result<(T, int), SyntaxErrorView>;

/// The error of a parser that finds something else than it expects at a
/// place: at a token, the token is unexpected; at the end of the text, the
/// end is; where the tokens end in a fault, the fault is the error.
pub open spec fn error_at(stream: StreamView, pos: int, expected: Expected) -> SyntaxErrorView {
    if 0 <= pos < stream.tokens.len() {
        SyntaxErrorView { offset: stream.tokens[pos].offset, reason: ReasonView::Expected(expected) }
    } else {
        match stream.fault {
            Some(f) => SyntaxErrorView { offset: f.offset, reason: ReasonView::Lex(f.message) },
            None => SyntaxErrorView { offset: stream.end, reason: ReasonView::Expected(expected) },
        }
    }
}

/// Whether a token of some kind stands at a place.
pub open spec fn has_token(stream: StreamView, pos: int) -> bool {
    0 <= pos < stream.tokens.len()
}

/// Whether `(` stands at a place.
pub open spec fn at_lparen(stream: StreamView, pos: int) -> bool {
    has_token(stream, pos) && stream.tokens[pos].token is LParen
}

/// Whether `)` stands at a place.
pub open spec fn at_rparen(stream: StreamView, pos: int) -> bool {
    has_token(stream, pos) && stream.tokens[pos].token is RParen
}

/// Whether a list ends at a place: at a `)` or at the end of the text.  A
/// fault does not end a list.
pub open spec fn list_ends(stream: StreamView, pos: int) -> bool {
    at_rparen(stream, pos) || (!has_token(stream, pos) && stream.fault is None)
}

/// Whether a parser yields a value and goes on at a place.
pub open spec fn yields<T>(parsed: Parsed<T>, value: T, next: int) -> bool {
    parsed == Ok::<(T, int), SyntaxErrorView>((value, next))
}

/// Whether a parser fails with an error.
pub open spec fn fails<T>(parsed: Parsed<T>, error: SyntaxErrorView) -> bool {
    parsed == Err::<(T, int), SyntaxErrorView>(error)
}

/// An entity: an identifier, else a name, else a number.
pub open spec fn entity_at(stream: StreamView, pos: int) -> Parsed<EntityView> {
    if !has_token(stream, pos) {
        Err(error_at(stream, pos, Expected::Entity))
    } else {
        let offset = stream.tokens[pos].offset;
        match stream.tokens[pos].token {
            TokenView::Id(name) => Ok((EntityView::Identifier(name), pos + 1)),
            TokenView::BadId(message) => Err(
                SyntaxErrorView { offset, reason: ReasonView::Lex(message) },
            ),
            TokenView::Keyword(name) => Ok((EntityView::Name(name), pos + 1)),
            TokenView::Integer(Some(n)) => Ok((EntityView::Number(n), pos + 1)),
            TokenView::Integer(None) => Err(
                SyntaxErrorView { offset, reason: ReasonView::Expected(Expected::U32InRange) },
            ),
            _ => Err(error_at(stream, pos, Expected::Entity)),
        }
    }
}

/// A cardinality: a number.
pub open spec fn card_at(stream: StreamView, pos: int) -> Parsed<u32> {
    if !has_token(stream, pos) {
        Err(error_at(stream, pos, Expected::U32))
    } else {
        match stream.tokens[pos].token {
            TokenView::Integer(Some(n)) => Ok((n, pos + 1)),
            TokenView::Integer(None) => Err(
                SyntaxErrorView {
                    offset: stream.tokens[pos].offset,
                    reason: ReasonView::Expected(Expected::U32InRange),
                },
            ),
            _ => Err(error_at(stream, pos, Expected::U32)),
        }
    }
}

/// A list with one more item in front.
pub open spec fn with_front<T>(front: Seq<T>, rest: Parsed<Seq<T>>) -> Parsed<Seq<T>> {
    match rest {
        Err(e) => Err(e),
        Ok((items, end)) => Ok((front + items, end)),
    }
}

/// Items, one after the other, up to the end of the list.
pub open spec fn list_at<T>(
    stream: StreamView,
    pos: int,
    item: spec_fn(StreamView, int) -> Parsed<T>,
) -> Parsed<Seq<T>>
    decreases stream.tokens.len() - pos,
{
    if list_ends(stream, pos) {
        Ok((Seq::empty(), pos))
    } else {
        match item(stream, pos) {
            Err(e) => Err(e),
            Ok((first, next)) => if pos < next <= stream.tokens.len() {
                with_front(seq![first], list_at(stream, next, item))
            } else {
                Ok((seq![first], next))
            },
        }
    }
}

/// What was parsed behind a `(`, if a `)` follows it.
pub open spec fn closed<T>(stream: StreamView, inner: Parsed<T>) -> Parsed<T> {
    match inner {
        Err(e) => Err(e),
        Ok((value, next)) => if at_rparen(stream, next) {
            Ok((value, next + 1))
        } else {
            Err(error_at(stream, next, Expected::RParen))
        },
    }
}

/// The parser of one entity.
pub open spec fn entity_items() -> spec_fn(StreamView, int) -> Parsed<EntityView> {
    |s: StreamView, p: int| entity_at(s, p)
}

/// The parser of one cardinality.
pub open spec fn card_items() -> spec_fn(StreamView, int) -> Parsed<u32> {
    |s: StreamView, p: int| card_at(s, p)
}

/// The parser of one group of entities.
pub open spec fn group_items() -> spec_fn(StreamView, int) -> Parsed<Seq<EntityView>> {
    |s: StreamView, p: int| group_at(s, p)
}

/// The parser of one trope in its parentheses.
pub open spec fn trope_items() -> spec_fn(StreamView, int) -> Parsed<TropeView> {
    |s: StreamView, p: int| trope_form_at(s, p)
}

/// The parser of one top-level form.
pub open spec fn form_items() -> spec_fn(StreamView, int) -> Parsed<FormView> {
    |s: StreamView, p: int| form_at(s, p)
}

/// `(entity…)`: a group of entities.
pub open spec fn group_at(stream: StreamView, pos: int) -> Parsed<Seq<EntityView>> {
    if !at_lparen(stream, pos) {
        Err(error_at(stream, pos, Expected::LParen))
    } else {
        closed(stream, list_at(stream, pos + 1, entity_items()))
    }
}

/// `(card…)`: a group of cardinalities.
pub open spec fn cards_at(stream: StreamView, pos: int) -> Parsed<Seq<u32>> {
    if !at_lparen(stream, pos) {
        Err(error_at(stream, pos, Expected::LParen))
    } else {
        closed(stream, list_at(stream, pos + 1, card_items()))
    }
}

/// The name of a trope: none before a `(`, else an identifier.
pub open spec fn name_at(stream: StreamView, pos: int) -> Parsed<Option<Seq<char>>> {
    if at_lparen(stream, pos) {
        Ok((None, pos))
    } else if !has_token(stream, pos) {
        Err(error_at(stream, pos, Expected::Identifier))
    } else {
        match stream.tokens[pos].token {
            TokenView::Id(name) => Ok((Some(name), pos + 1)),
            TokenView::BadId(message) => Err(
                SyntaxErrorView {
                    offset: stream.tokens[pos].offset,
                    reason: ReasonView::Lex(message),
                },
            ),
            _ => Err(error_at(stream, pos, Expected::Identifier)),
        }
    }
}

/// The terms of a sequence: one group of entities or more.
pub open spec fn terms_at(stream: StreamView, pos: int) -> Parsed<Seq<Seq<EntityView>>> {
    if list_ends(stream, pos) {
        Err(error_at(stream, pos, Expected::LParen))
    } else {
        list_at(stream, pos, group_items())
    }
}

/// Whether a keyword stands at a place.
pub open spec fn at_keyword(stream: StreamView, pos: int, word: Seq<char>) -> bool {
    has_token(stream, pos) && stream.tokens[pos].token == TokenView::Keyword(word)
}

/// A trigger behind its keyword: an optional name and a group of entities.
pub open spec fn trigger_at(stream: StreamView, pos: int) -> Parsed<TriggerView> {
    match name_at(stream, pos) {
        Err(e) => Err(e),
        Ok((id, next)) => match group_at(stream, next) {
            Err(e) => Err(e),
            Ok((entities, end)) => Ok((TriggerView { id, entities, compiled: None }, end)),
        },
    }
}

/// A sequence behind its keyword: an optional name and one term or more.
pub open spec fn sequence_at(stream: StreamView, pos: int) -> Parsed<SequenceView> {
    match name_at(stream, pos) {
        Err(e) => Err(e),
        Ok((id, next)) => match terms_at(stream, next) {
            Err(e) => Err(e),
            Ok((terms, end)) => Ok((SequenceView { id, terms, compiled: None }, end)),
        },
    }
}

/// A group of entities behind its keyword: an optional name and the group.
pub open spec fn entities_at(stream: StreamView, pos: int) -> Parsed<TropeView> {
    match name_at(stream, pos) {
        Err(e) => Err(e),
        Ok((id, next)) => match group_at(stream, next) {
            Err(e) => Err(e),
            Ok((entities, end)) => Ok((TropeView::Entities { id, entities }, end)),
        },
    }
}

/// A choice behind its keyword: an optional name, a group of cardinalities
/// and a group of entities.
pub open spec fn choice_at(stream: StreamView, pos: int) -> Parsed<TropeView> {
    match name_at(stream, pos) {
        Err(e) => Err(e),
        Ok((id, next)) => match cards_at(stream, next) {
            Err(e) => Err(e),
            Ok((cards, after)) => match group_at(stream, after) {
                Err(e) => Err(e),
                Ok((base, end)) => Ok((TropeView::Choice { id, cards, base }, end)),
            },
        },
    }
}

/// A trope: one of the four keywords and what it asks for.
pub open spec fn trope_at(stream: StreamView, pos: int) -> Parsed<TropeView> {
    if at_keyword(stream, pos, "trigger"@) {
        match trigger_at(stream, pos + 1) {
            Err(e) => Err(e),
            Ok((trigger, end)) => Ok((TropeView::Trigger(trigger), end)),
        }
    } else if at_keyword(stream, pos, "sequence"@) {
        match sequence_at(stream, pos + 1) {
            Err(e) => Err(e),
            Ok((sequence, end)) => Ok((TropeView::Sequence(sequence), end)),
        }
    } else if at_keyword(stream, pos, "entities"@) {
        entities_at(stream, pos + 1)
    } else if at_keyword(stream, pos, "choice"@) {
        choice_at(stream, pos + 1)
    } else {
        Err(error_at(stream, pos, Expected::Trope))
    }
}

/// `(trope)`: a trope in its parentheses.
pub open spec fn trope_form_at(stream: StreamView, pos: int) -> Parsed<TropeView> {
    if !at_lparen(stream, pos) {
        Err(error_at(stream, pos, Expected::LParen))
    } else {
        closed(stream, trope_at(stream, pos + 1))
    }
}

/// A site behind its keyword: its tropes, each in its parentheses.
pub open spec fn site_at(stream: StreamView, pos: int) -> Parsed<SiteAstView> {
    match list_at(stream, pos, trope_items()) {
        Err(e) => Err(e),
        Ok((tropes, end)) => Ok((SiteAstView { tropes, compiled: None }, end)),
    }
}

/// A top-level form of a specification.
pub enum FormView {
    Site(SiteAstView),
    Trope(TropeView),
}

/// What stands between the parentheses of a top-level form: a site, behind
/// the keyword `site`, or else a trope.
pub open spec fn form_body_at(stream: StreamView, pos: int) -> Parsed<FormView> {
    if at_keyword(stream, pos, "site"@) {
        match site_at(stream, pos + 1) {
            Err(e) => Err(e),
            Ok((site, end)) => Ok((FormView::Site(site), end)),
        }
    } else {
        match trope_at(stream, pos) {
            Err(e) => Err(e),
            Ok((trope, end)) => Ok((FormView::Trope(trope), end)),
        }
    }
}

/// `(site …)` or `(trope)`: a top-level form.
pub open spec fn form_at(stream: StreamView, pos: int) -> Parsed<FormView> {
    if !at_lparen(stream, pos) {
        Err(error_at(stream, pos, Expected::LParen))
    } else {
        closed(stream, form_body_at(stream, pos + 1))
    }
}

/// A specification: top-level forms up to the end of the text.
pub open spec fn forms_of(stream: StreamView) -> Result<Seq<FormView>, SyntaxErrorView> {
    match list_at(stream, 0, form_items()) {
        Err(e) => Err(e),
        Ok((forms, end)) => if has_token(stream, end) {
            Err(error_at(stream, end, Expected::EndOfInput))
        } else {
            Ok(forms)
        },
    }
}


/// A top-level form of a specification: a site or a trope outside any site.
#[derive(Debug)]
pub enum Form {
    Site(SiteAst),
    Trope(Trope),
}

impl View for Form {
    type V = FormView;

    open spec fn view(&self) -> FormView {
        match self {
            Form::Site(site) => FormView::Site(site@),
            Form::Trope(trope) => FormView::Trope(trope@),
        }
    }
}

/// The values of a sequence of forms.
pub open spec fn form_views(forms: Seq<Form>) -> Seq<FormView> {
    forms.map_values(|f: Form| f@)
}

/// Whether a parser returned what the grammar says: the value with the place
/// of the next token, which lies from `least` on and within the tokens, or
/// the error.
pub open spec fn agrees<T, V>(
    result: Result<(T, usize), SyntaxError>,
    parsed: Parsed<V>,
    view: spec_fn(T) -> V,
    least: int,
    stream: StreamView,
) -> bool {
    match result {
        Ok((value, next)) => yields(parsed, view(value), next as int) && least <= next
            <= stream.tokens.len(),
        Err(error) => fails(parsed, error@),
    }
}

/// Lists keep their items when more are put in front.
proof fn lemma_with_front<T>(front: Seq<T>, first: T, rest: Parsed<Seq<T>>)
    ensures
        with_front(front, with_front(seq![first], rest)) == with_front(front.push(first), rest),
        with_front(Seq::<T>::empty(), rest) == rest,
{
    match rest {
        Ok((items, end)) => {
            assert(front + (seq![first] + items) =~= front.push(first) + items);
            assert(Seq::<T>::empty() + items =~= items);
        },
        Err(_) => {},
    }
}

/// Whether two texts are the same.
fn same_text(text: &String, word: &str) -> (same: bool)
    ensures
        same == (text@ == word@),
{
    let owned = word.to_owned();
    *text == owned
}

/// The error of a parser that finds something else than it expects.
fn error_here(stream: &TokenStream, pos: usize, expected: Expected) -> (error: SyntaxError)
    ensures
        error@ == error_at(stream@, pos as int, expected),
{
    if pos < stream.tokens.len() {
        SyntaxError { offset: stream.tokens[pos].offset, reason: Reason::Expected(expected) }
    } else {
        match &stream.fault {
            Some(f) => SyntaxError { offset: f.offset, reason: Reason::Lex(f.message.clone()) },
            None => SyntaxError { offset: stream.end, reason: Reason::Expected(expected) },
        }
    }
}

/// Whether `(` stands at a place.
fn is_lparen(stream: &TokenStream, pos: usize) -> (found: bool)
    ensures
        found == at_lparen(stream@, pos as int),
        found ==> pos < stream.tokens.len(),
{
    if pos < stream.tokens.len() {
        match stream.tokens[pos].token {
            Token::LParen => true,
            _ => false,
        }
    } else {
        false
    }
}

/// Whether `)` stands at a place.
fn is_rparen(stream: &TokenStream, pos: usize) -> (found: bool)
    ensures
        found == at_rparen(stream@, pos as int),
{
    if pos < stream.tokens.len() {
        match stream.tokens[pos].token {
            Token::RParen => true,
            _ => false,
        }
    } else {
        false
    }
}

/// Whether a list ends at a place.
fn ends_list(stream: &TokenStream, pos: usize) -> (ends: bool)
    ensures
        ends == list_ends(stream@, pos as int),
{
    if pos < stream.tokens.len() {
        is_rparen(stream, pos)
    } else {
        stream.fault.is_none()
    }
}

/// Whether a keyword stands at a place.
fn is_keyword(stream: &TokenStream, pos: usize, word: &str) -> (found: bool)
    ensures
        found == at_keyword(stream@, pos as int, word@),
        found ==> pos < stream.tokens.len(),
{
    if pos < stream.tokens.len() {
        match &stream.tokens[pos].token {
            Token::Keyword(text) => same_text(text, word),
            _ => false,
        }
    } else {
        false
    }
}

/// What was parsed behind a `(`, if a `)` follows it.
fn close<T>(stream: &TokenStream, value: T, next: usize) -> (result: Result<
    (T, usize),
    SyntaxError,
>)
    requires
        next <= stream.tokens.len(),
    ensures
        match result {
            Ok((v, end)) => v == value && at_rparen(stream@, next as int) && end == next + 1,
            Err(e) => !at_rparen(stream@, next as int) && e@ == error_at(
                stream@,
                next as int,
                Expected::RParen,
            ),
        },
{
    if is_rparen(stream, next) {
        Ok((value, next + 1))
    } else {
        Err(error_here(stream, next, Expected::RParen))
    }
}

/// Parses an entity.
pub fn parse_entity(stream: &TokenStream, pos: usize) -> (result: Result<
    (Entity, usize),
    SyntaxError,
>)
    ensures
        agrees(result, entity_at(stream@, pos as int), |e: Entity| e@, pos + 1, stream@),
{
    if pos >= stream.tokens.len() {
        return Err(error_here(stream, pos, Expected::Entity));
    }
    let offset = stream.tokens[pos].offset;
    match &stream.tokens[pos].token {
        Token::Id(name) => Ok((Entity::Identifier(name.clone()), pos + 1)),
        Token::BadId(message) => Err(SyntaxError { offset, reason: Reason::Lex(message.clone()) }),
        Token::Keyword(name) => Ok((Entity::Name(name.clone()), pos + 1)),
        Token::Integer(Some(n)) => Ok((Entity::Number(*n), pos + 1)),
        Token::Integer(None) => Err(
            SyntaxError { offset, reason: Reason::Expected(Expected::U32InRange) },
        ),
        _ => Err(error_here(stream, pos, Expected::Entity)),
    }
}

/// Parses a cardinality.
pub fn parse_card(stream: &TokenStream, pos: usize) -> (result: Result<(u32, usize), SyntaxError>)
    ensures
        agrees(result, card_at(stream@, pos as int), |n: u32| n, pos + 1, stream@),
{
    if pos >= stream.tokens.len() {
        return Err(error_here(stream, pos, Expected::U32));
    }
    match &stream.tokens[pos].token {
        Token::Integer(Some(n)) => Ok((*n, pos + 1)),
        Token::Integer(None) => Err(
            SyntaxError {
                offset: stream.tokens[pos].offset,
                reason: Reason::Expected(Expected::U32InRange),
            },
        ),
        _ => Err(error_here(stream, pos, Expected::U32)),
    }
}

/// Parses entities up to the end of their list.
fn parse_entities(stream: &TokenStream, pos: usize) -> (result: Result<
    (Vec<Entity>, usize),
    SyntaxError,
>)
    requires
        pos <= stream.tokens.len(),
    ensures
        agrees(
            result,
            list_at(stream@, pos as int, entity_items()),
            |v: Vec<Entity>| entity_views(v@),
            pos as int,
            stream@,
        ),
{
    let ghost whole = list_at(stream@, pos as int, entity_items());
    let mut entities: Vec<Entity> = Vec::new();
    let mut at: usize = pos;
    proof {
        lemma_with_front(Seq::empty(), arbitrary(), whole);
        assert(entity_views(entities@) =~= Seq::empty());
    }
    while !ends_list(stream, at)
        invariant
            pos <= at <= stream.tokens.len(),
            whole == list_at(stream@, pos as int, entity_items()),
            whole == with_front(
                entity_views(entities@),
                list_at(stream@, at as int, entity_items()),
            ),
        decreases stream.tokens.len() - at,
    {
        match parse_entity(stream, at) {
            Err(e) => {
                return Err(e);
            },
            Ok((entity, next)) => {
                proof {
                    lemma_with_front(
                        entity_views(entities@),
                        entity@,
                        list_at(stream@, next as int, entity_items()),
                    );
                    assert(entity_views(entities@.push(entity)) =~= entity_views(
                        entities@,
                    ).push(entity@));
                }
                entities.push(entity);
                at = next;
            },
        }
    }
    assert(entity_views(entities@) + Seq::<EntityView>::empty() =~= entity_views(entities@));
    Ok((entities, at))
}

/// Parses a group of entities: `(entity…)`.
pub fn parse_group(stream: &TokenStream, pos: usize) -> (result: Result<
    (Vec<Entity>, usize),
    SyntaxError,
>)
    ensures
        agrees(
            result,
            group_at(stream@, pos as int),
            |v: Vec<Entity>| entity_views(v@),
            pos + 1,
            stream@,
        ),
{
    if !is_lparen(stream, pos) {
        return Err(error_here(stream, pos, Expected::LParen));
    }
    match parse_entities(stream, pos + 1) {
        Err(e) => Err(e),
        Ok((entities, next)) => close(stream, entities, next),
    }
}

/// Parses cardinalities up to the end of their list.
fn parse_card_list(stream: &TokenStream, pos: usize) -> (result: Result<
    (Vec<u32>, usize),
    SyntaxError,
>)
    requires
        pos <= stream.tokens.len(),
    ensures
        agrees(
            result,
            list_at(stream@, pos as int, card_items()),
            |v: Vec<u32>| v@,
            pos as int,
            stream@,
        ),
{
    let ghost whole = list_at(stream@, pos as int, card_items());
    let mut cards: Vec<u32> = Vec::new();
    let mut at: usize = pos;
    proof {
        lemma_with_front(Seq::empty(), arbitrary(), whole);
        assert(cards@ =~= Seq::empty());
    }
    while !ends_list(stream, at)
        invariant
            pos <= at <= stream.tokens.len(),
            whole == list_at(stream@, pos as int, card_items()),
            whole == with_front(cards@, list_at(stream@, at as int, card_items())),
        decreases stream.tokens.len() - at,
    {
        match parse_card(stream, at) {
            Err(e) => {
                return Err(e);
            },
            Ok((card, next)) => {
                proof {
                    lemma_with_front(cards@, card, list_at(stream@, next as int, card_items()));
                }
                cards.push(card);
                at = next;
            },
        }
    }
    assert(cards@ + Seq::<u32>::empty() =~= cards@);
    Ok((cards, at))
}

/// Parses a group of cardinalities: `(card…)`.
pub fn parse_cards(stream: &TokenStream, pos: usize) -> (result: Result<
    (Vec<u32>, usize),
    SyntaxError,
>)
    ensures
        agrees(result, cards_at(stream@, pos as int), |v: Vec<u32>| v@, pos + 1, stream@),
{
    if !is_lparen(stream, pos) {
        return Err(error_here(stream, pos, Expected::LParen));
    }
    match parse_card_list(stream, pos + 1) {
        Err(e) => Err(e),
        Ok((cards, next)) => close(stream, cards, next),
    }
}

/// Parses the name of a trope, if it has one.
pub fn parse_name(stream: &TokenStream, pos: usize) -> (result: Result<
    (Option<String>, usize),
    SyntaxError,
>)
    requires
        pos <= stream.tokens.len(),
    ensures
        agrees(
            result,
            name_at(stream@, pos as int),
            |n: Option<String>| name_view(n),
            pos as int,
            stream@,
        ),
{
    if is_lparen(stream, pos) {
        return Ok((None, pos));
    }
    if pos >= stream.tokens.len() {
        return Err(error_here(stream, pos, Expected::Identifier));
    }
    match &stream.tokens[pos].token {
        Token::Id(name) => Ok((Some(name.clone()), pos + 1)),
        Token::BadId(message) => Err(
            SyntaxError { offset: stream.tokens[pos].offset, reason: Reason::Lex(message.clone()) },
        ),
        _ => Err(error_here(stream, pos, Expected::Identifier)),
    }
}

/// Parses the terms of a sequence: one group of entities or more.
pub fn parse_terms(stream: &TokenStream, pos: usize) -> (result: Result<
    (Vec<Vec<Entity>>, usize),
    SyntaxError,
>)
    requires
        pos <= stream.tokens.len(),
    ensures
        agrees(
            result,
            terms_at(stream@, pos as int),
            |v: Vec<Vec<Entity>>| term_views(v@),
            pos + 1,
            stream@,
        ),
{
    if ends_list(stream, pos) {
        return Err(error_here(stream, pos, Expected::LParen));
    }
    let ghost whole = list_at(stream@, pos as int, group_items());
    let mut terms: Vec<Vec<Entity>> = Vec::new();
    let mut at: usize = pos;
    proof {
        lemma_with_front(Seq::empty(), arbitrary(), whole);
        assert(term_views(terms@) =~= Seq::empty());
    }
    while !ends_list(stream, at)
        invariant
            pos <= at <= stream.tokens.len(),
            !list_ends(stream@, pos as int),
            whole == list_at(stream@, pos as int, group_items()),
            at == pos ==> terms@.len() == 0,
            at > pos ==> terms@.len() > 0,
            whole == with_front(term_views(terms@), list_at(stream@, at as int, group_items())),
        decreases stream.tokens.len() - at,
    {
        match parse_group(stream, at) {
            Err(e) => {
                return Err(e);
            },
            Ok((term, next)) => {
                proof {
                    lemma_with_front(
                        term_views(terms@),
                        entity_views(term@),
                        list_at(stream@, next as int, group_items()),
                    );
                    assert(term_views(terms@.push(term)) =~= term_views(terms@).push(
                        entity_views(term@),
                    ));
                }
                terms.push(term);
                at = next;
            },
        }
    }
    assert(term_views(terms@) + Seq::<Seq<EntityView>>::empty() =~= term_views(terms@));
    Ok((terms, at))
}

impl TriggerAst {
    /// Parses a trigger behind its keyword.
    pub fn parse(stream: &TokenStream, pos: usize) -> (result: Result<
        (TriggerAst, usize),
        SyntaxError,
    >)
        requires
            pos <= stream.tokens.len(),
        ensures
            agrees(
                result,
                trigger_at(stream@, pos as int),
                |t: TriggerAst| t@,
                pos + 1,
                stream@,
            ),
            result matches Ok((t, _)) ==> t.wf(),
    {
        let (id, next) = match parse_name(stream, pos) {
            Ok(found) => found,
            Err(e) => {
                return Err(e);
            },
        };
        match parse_group(stream, next) {
            Err(e) => Err(e),
            Ok((entities, end)) => Ok((TriggerAst { id, entities, compiled: None }, end)),
        }
    }
}

impl SequenceAst {
    /// Parses a sequence behind its keyword.
    pub fn parse(stream: &TokenStream, pos: usize) -> (result: Result<
        (SequenceAst, usize),
        SyntaxError,
    >)
        requires
            pos <= stream.tokens.len(),
        ensures
            agrees(
                result,
                sequence_at(stream@, pos as int),
                |t: SequenceAst| t@,
                pos + 1,
                stream@,
            ),
            result matches Ok((t, _)) ==> t.wf(),
    {
        let (id, next) = match parse_name(stream, pos) {
            Ok(found) => found,
            Err(e) => {
                return Err(e);
            },
        };
        match parse_terms(stream, next) {
            Err(e) => Err(e),
            Ok((terms, end)) => Ok((SequenceAst { id, terms, compiled: None }, end)),
        }
    }
}

impl EntitiesAst {
    /// Parses a group of entities behind its keyword.
    pub fn parse(stream: &TokenStream, pos: usize) -> (result: Result<
        (EntitiesAst, usize),
        SyntaxError,
    >)
        requires
            pos <= stream.tokens.len(),
        ensures
            agrees(
                result,
                entities_at(stream@, pos as int),
                |t: EntitiesAst| Trope::Entities(t)@,
                pos + 1,
                stream@,
            ),
    {
        let (id, next) = match parse_name(stream, pos) {
            Ok(found) => found,
            Err(e) => {
                return Err(e);
            },
        };
        match parse_group(stream, next) {
            Err(e) => Err(e),
            Ok((entities, end)) => Ok((EntitiesAst { id, entities }, end)),
        }
    }
}

impl ChoiceAst {
    /// Parses a choice behind its keyword.
    pub fn parse(stream: &TokenStream, pos: usize) -> (result: Result<
        (ChoiceAst, usize),
        SyntaxError,
    >)
        requires
            pos <= stream.tokens.len(),
        ensures
            agrees(
                result,
                choice_at(stream@, pos as int),
                |t: ChoiceAst| Trope::Choice(t)@,
                pos + 1,
                stream@,
            ),
    {
        let (id, next) = match parse_name(stream, pos) {
            Ok(found) => found,
            Err(e) => {
                return Err(e);
            },
        };
        let (cards, after) = match parse_cards(stream, next) {
            Ok(found) => found,
            Err(e) => {
                return Err(e);
            },
        };
        match parse_group(stream, after) {
            Err(e) => Err(e),
            Ok((base, end)) => Ok((ChoiceAst { id, cards, base }, end)),
        }
    }
}

impl Trope {
    /// Parses a trope: its keyword and what the keyword asks for.
    pub fn parse(stream: &TokenStream, pos: usize) -> (result: Result<(Trope, usize), SyntaxError>)
        ensures
            agrees(result, trope_at(stream@, pos as int), |t: Trope| t@, pos + 2, stream@),
            result matches Ok((t, _)) ==> t.wf(),
    {
        if is_keyword(stream, pos, "trigger") {
            match TriggerAst::parse(stream, pos + 1) {
                Err(e) => Err(e),
                Ok((ast, end)) => Ok((Trope::Trigger(ast), end)),
            }
        } else if is_keyword(stream, pos, "sequence") {
            match SequenceAst::parse(stream, pos + 1) {
                Err(e) => Err(e),
                Ok((ast, end)) => Ok((Trope::Sequence(ast), end)),
            }
        } else if is_keyword(stream, pos, "entities") {
            match EntitiesAst::parse(stream, pos + 1) {
                Err(e) => Err(e),
                Ok((ast, end)) => Ok((Trope::Entities(ast), end)),
            }
        } else if is_keyword(stream, pos, "choice") {
            match ChoiceAst::parse(stream, pos + 1) {
                Err(e) => Err(e),
                Ok((ast, end)) => Ok((Trope::Choice(ast), end)),
            }
        } else {
            Err(error_here(stream, pos, Expected::Trope))
        }
    }

    /// Parses a trope in its parentheses: `(trope)`.
    pub fn parse_form(stream: &TokenStream, pos: usize) -> (result: Result<
        (Trope, usize),
        SyntaxError,
    >)
        ensures
            agrees(result, trope_form_at(stream@, pos as int), |t: Trope| t@, pos + 1, stream@),
            result matches Ok((t, _)) ==> t.wf(),
    {
        if !is_lparen(stream, pos) {
            return Err(error_here(stream, pos, Expected::LParen));
        }
        match Trope::parse(stream, pos + 1) {
            Err(e) => Err(e),
            Ok((trope, next)) => close(stream, trope, next),
        }
    }
}

impl SiteAst {
    /// Parses a site behind its keyword: its tropes, each in its
    /// parentheses.
    pub fn parse(stream: &TokenStream, pos: usize) -> (result: Result<
        (SiteAst, usize),
        SyntaxError,
    >)
        requires
            pos <= stream.tokens.len(),
        ensures
            agrees(result, site_at(stream@, pos as int), |t: SiteAst| t@, pos as int, stream@),
            result matches Ok((t, _)) ==> t.wf(),
    {
        let ghost whole = list_at(stream@, pos as int, trope_items());
        let mut tropes: Vec<Trope> = Vec::new();
        let mut at: usize = pos;
        proof {
            lemma_with_front(Seq::empty(), arbitrary(), whole);
            assert(trope_views(tropes@) =~= Seq::empty());
        }
        while !ends_list(stream, at)
            invariant
                pos <= at <= stream.tokens.len(),
                crate::ast::tropes_wf(tropes@),
                whole == list_at(stream@, pos as int, trope_items()),
                whole == with_front(
                    trope_views(tropes@),
                    list_at(stream@, at as int, trope_items()),
                ),
            decreases stream.tokens.len() - at,
        {
            match Trope::parse_form(stream, at) {
                Err(e) => {
                    return Err(e);
                },
                Ok((trope, next)) => {
                    proof {
                        lemma_with_front(
                            trope_views(tropes@),
                            trope@,
                            list_at(stream@, next as int, trope_items()),
                        );
                        assert(trope_views(tropes@.push(trope)) =~= trope_views(tropes@).push(
                            trope@,
                        ));
                    }
                    tropes.push(trope);
                    at = next;
                },
            }
        }
        assert(trope_views(tropes@) + Seq::<TropeView>::empty() =~= trope_views(tropes@));
        Ok((SiteAst { tropes, compiled: None }, at))
    }
}

/// Whether every form of a sequence meets its invariant.
pub open spec fn forms_wf(forms: Seq<Form>) -> bool {
    forall|i: int| 0 <= i < forms.len() ==> (#[trigger] forms[i]).wf()
}

impl Form {
    /// The invariant of a form.
    pub open spec fn wf(&self) -> bool {
        match self {
            Form::Site(site) => site.wf(),
            Form::Trope(trope) => trope.wf(),
        }
    }

    /// Parses a top-level form: `(site …)` or `(trope)`.
    pub fn parse(stream: &TokenStream, pos: usize) -> (result: Result<(Form, usize), SyntaxError>)
        ensures
            agrees(result, form_at(stream@, pos as int), |f: Form| f@, pos + 1, stream@),
            result matches Ok((f, _)) ==> f.wf(),
    {
        if !is_lparen(stream, pos) {
            return Err(error_here(stream, pos, Expected::LParen));
        }
        let (form, next) = if is_keyword(stream, pos + 1, "site") {
            match SiteAst::parse(stream, pos + 2) {
                Err(e) => {
                    return Err(e);
                },
                Ok((site, next)) => (Form::Site(site), next),
            }
        } else {
            match Trope::parse(stream, pos + 1) {
                Err(e) => {
                    return Err(e);
                },
                Ok((trope, next)) => (Form::Trope(trope), next),
            }
        };
        close(stream, form, next)
    }
}

/// Parses a specification: its top-level forms, up to the end of the text.
/// The first error ends the parse.
pub fn parse_forms(stream: &TokenStream) -> (result: Result<Vec<Form>, SyntaxError>)
    ensures
        match result {
            Ok(forms) => forms_of(stream@) == Ok::<Seq<FormView>, SyntaxErrorView>(
                form_views(forms@),
            ) && forms_wf(forms@),
            Err(e) => forms_of(stream@) == Err::<Seq<FormView>, SyntaxErrorView>(e@),
        },
{
    let ghost whole = list_at(stream@, 0, form_items());
    let mut forms: Vec<Form> = Vec::new();
    let mut at: usize = 0;
    proof {
        lemma_with_front(Seq::empty(), arbitrary(), whole);
        assert(form_views(forms@) =~= Seq::empty());
    }
    while !ends_list(stream, at)
        invariant
            at <= stream.tokens.len(),
            forms_wf(forms@),
            whole == list_at(stream@, 0, form_items()),
            whole == with_front(form_views(forms@), list_at(stream@, at as int, form_items())),
        decreases stream.tokens.len() - at,
    {
        match Form::parse(stream, at) {
            Err(e) => {
                return Err(e);
            },
            Ok((form, next)) => {
                proof {
                    lemma_with_front(
                        form_views(forms@),
                        form@,
                        list_at(stream@, next as int, form_items()),
                    );
                    assert(form_views(forms@.push(form)) =~= form_views(forms@).push(form@));
                }
                forms.push(form);
                at = next;
            },
        }
    }
    assert(form_views(forms@) + Seq::<FormView>::empty() =~= form_views(forms@));
    if at < stream.tokens.len() {
        Err(error_here(stream, at, Expected::EndOfInput))
    } else {
        Ok(forms)
    }
}

} // verus!
