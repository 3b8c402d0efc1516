//! What holds of the grammar: the tokens that write a specification down
//! parse to that specification.

use crate::ast::{SequenceView, SiteAstView, TriggerView, TropeView};
use crate::entity::EntityView;
use crate::parser::{
    at_keyword, card_at, card_items, cards_at, entity_at, entity_items, form_at, form_items,
    forms_of, group_at, group_items, list_at, list_ends, name_at, terms_at, trope_at,
    trope_form_at, trope_items, with_front, yields, FormView, Parsed, SyntaxErrorView,
};
use crate::token::{StreamView, TokenView};
use vstd::prelude::*;

verus! {

/// Whether the given tokens stand in the stream from a place on.
pub open spec fn stands_at(stream: StreamView, pos: int, what: Seq<TokenView>) -> bool {
    &&& 0 <= pos
    &&& pos + what.len() <= stream.tokens.len()
    &&& forall|i: int| 0 <= i < what.len() ==> (#[trigger] stream.tokens[pos + i]).token == what[i]
}

/// The tokens of the items of a list, one item after the other.
pub open spec fn written<T>(items: Seq<T>, write: spec_fn(T) -> Seq<TokenView>) -> Seq<TokenView>
    decreases items.len(),
{
    if items.len() == 0 {
        Seq::empty()
    } else {
        write(items[0]) + written(items.drop_first(), write)
    }
}

/// The token that writes an entity.
pub open spec fn entity_token(entity: EntityView) -> TokenView {
    match entity {
        EntityView::Identifier(name) => TokenView::Id(name),
        EntityView::Name(name) => TokenView::Keyword(name),
        EntityView::Number(n) => TokenView::Integer(Some(n)),
    }
}

/// How an entity is written.
pub open spec fn entity_writer() -> spec_fn(EntityView) -> Seq<TokenView> {
    |e: EntityView| seq![entity_token(e)]
}

/// How a cardinality is written.
pub open spec fn card_writer() -> spec_fn(u32) -> Seq<TokenView> {
    |n: u32| seq![TokenView::Integer(Some(n))]
}

/// The tokens of a group of entities: `(entity…)`.
pub open spec fn group_tokens(entities: Seq<EntityView>) -> Seq<TokenView> {
    seq![TokenView::LParen] + written(entities, entity_writer()) + seq![TokenView::RParen]
}

/// How a group of entities is written.
pub open spec fn group_writer() -> spec_fn(Seq<EntityView>) -> Seq<TokenView> {
    |g: Seq<EntityView>| group_tokens(g)
}

/// The tokens of a group of cardinalities: `(card…)`.
pub open spec fn cards_tokens(cards: Seq<u32>) -> Seq<TokenView> {
    seq![TokenView::LParen] + written(cards, card_writer()) + seq![TokenView::RParen]
}

/// The tokens of the name of a trope, if it has one.
pub open spec fn name_tokens(name: Option<Seq<char>>) -> Seq<TokenView> {
    match name {
        Some(n) => seq![TokenView::Id(n)],
        None => Seq::empty(),
    }
}

/// A list of self-contained items parses to its items.  An item is
/// self-contained if its tokens parse to it wherever they stand, and do not
/// start with `)`.
pub proof fn lemma_list_parses<T>(
    stream: StreamView,
    pos: int,
    items: Seq<T>,
    item: spec_fn(StreamView, int) -> Parsed<T>,
    write: spec_fn(T) -> Seq<TokenView>,
    fit: spec_fn(T) -> bool,
)
    requires
        stands_at(stream, pos, written(items, write)),
        list_ends(stream, pos + written(items, write).len()),
        forall|i: int| 0 <= i < items.len() ==> fit(#[trigger] items[i]),
        forall|x: T| fit(x) ==> (#[trigger] write(x)).len() > 0 && !(write(x)[0] is RParen),
        forall|x: T, p: int|
            fit(x) && #[trigger] stands_at(stream, p, write(x)) ==> yields(
                item(stream, p),
                x,
                p + write(x).len(),
            ),
    ensures
        yields(list_at(stream, pos, item), items, pos + written(items, write).len()),
    decreases items.len(),
{
    if items.len() == 0 {
        assert(items =~= Seq::<T>::empty());
    } else {
        let first = items[0];
        let rest = items.drop_first();
        let head = write(first);
        let tail = written(rest, write);
        assert(fit(first));
        assert(stands_at(stream, pos, head)) by {
            assert forall|i: int| 0 <= i < head.len() implies (#[trigger] stream.tokens[pos
                + i]).token == head[i] by {
                assert((head + tail)[i] == head[i]);
            }
        }
        assert(stands_at(stream, pos + head.len(), tail)) by {
            assert forall|i: int| 0 <= i < tail.len() implies (#[trigger] stream.tokens[pos
                + head.len() + i]).token == tail[i] by {
                assert((head + tail)[head.len() + i] == tail[i]);
                assert(stream.tokens[pos + (head.len() + i)].token == (head + tail)[head.len()
                    + i]);
            }
        }
        assert(stream.tokens[pos + 0].token == head[0]);
        assert(!list_ends(stream, pos));
        assert forall|i: int| 0 <= i < rest.len() implies fit(#[trigger] rest[i]) by {
            assert(rest[i] == items[i + 1]);
        }
        let next = pos + head.len();
        assert(written(items, write).len() == head.len() + tail.len());
        lemma_list_parses(stream, next, rest, item, write, fit);
        assert(yields(item(stream, pos), first, next));
        assert(pos < next <= stream.tokens.len());
        assert(yields(list_at(stream, next, item), rest, next + tail.len()));
        assert(seq![first] + rest =~= items);
        assert(list_at(stream, pos, item) == with_front(
            seq![first],
            list_at(stream, next, item),
        ));
    }
}

/// The token that writes an entity parses to the entity.
pub proof fn lemma_entity_parses(stream: StreamView, pos: int, entity: EntityView)
    requires
        stands_at(stream, pos, seq![entity_token(entity)]),
    ensures
        yields(entity_at(stream, pos), entity, pos + 1),
{
    assert(stream.tokens[pos + 0].token == seq![entity_token(entity)][0]);
}

/// The tokens that write a group of entities parse to the group.
pub proof fn lemma_group_parses(stream: StreamView, pos: int, entities: Seq<EntityView>)
    requires
        stands_at(stream, pos, group_tokens(entities)),
    ensures
        yields(group_at(stream, pos), entities, pos + group_tokens(entities).len()),
{
    let inner = written(entities, entity_writer());
    let all = group_tokens(entities);
    assert(stream.tokens[pos + 0].token == all[0]);
    let last = 1 + inner.len() as int;
    assert(stream.tokens[pos + last].token == all[last]);
    assert(stands_at(stream, pos + 1, inner)) by {
        assert forall|i: int| 0 <= i < inner.len() implies (#[trigger] stream.tokens[pos + 1
            + i]).token == inner[i] by {
            assert(all[1 + i] == inner[i]);
            assert(stream.tokens[pos + (1 + i)].token == all[1 + i]);
        }
    }
    assert forall|x: EntityView, p: int| #[trigger]
        stands_at(stream, p, entity_writer()(x)) implies yields(
        entity_items()(stream, p),
        x,
        p + entity_writer()(x).len(),
    ) by {
        lemma_entity_parses(stream, p, x);
    }
    lemma_list_parses(
        stream,
        pos + 1,
        entities,
        entity_items(),
        entity_writer(),
        |e: EntityView| true,
    );
}


/// Where tokens stand, their first part stands and their second part
/// follows it.
pub proof fn lemma_stands_split(
    stream: StreamView,
    pos: int,
    first: Seq<TokenView>,
    second: Seq<TokenView>,
)
    requires
        stands_at(stream, pos, first + second),
    ensures
        stands_at(stream, pos, first),
        stands_at(stream, pos + first.len(), second),
{
    assert forall|i: int| 0 <= i < first.len() implies (#[trigger] stream.tokens[pos + i]).token
        == first[i] by {
        assert((first + second)[i] == first[i]);
    }
    assert forall|i: int| 0 <= i < second.len() implies (#[trigger] stream.tokens[pos
        + first.len() + i]).token == second[i] by {
        assert((first + second)[first.len() + i] == second[i]);
        assert(stream.tokens[pos + (first.len() + i)].token == (first + second)[first.len() + i]);
    }
}

/// The token that writes a cardinality parses to the cardinality.
pub proof fn lemma_card_parses(stream: StreamView, pos: int, card: u32)
    requires
        stands_at(stream, pos, seq![TokenView::Integer(Some(card))]),
    ensures
        yields(card_at(stream, pos), card, pos + 1),
{
    assert(stream.tokens[pos + 0].token == seq![TokenView::Integer(Some(card))][0]);
}

/// The tokens that write a group of cardinalities parse to the group.
pub proof fn lemma_cards_parse(stream: StreamView, pos: int, cards: Seq<u32>)
    requires
        stands_at(stream, pos, cards_tokens(cards)),
    ensures
        yields(cards_at(stream, pos), cards, pos + cards_tokens(cards).len()),
{
    let inner = written(cards, card_writer());
    lemma_stands_split(stream, pos, seq![TokenView::LParen] + inner, seq![TokenView::RParen]);
    lemma_stands_split(stream, pos, seq![TokenView::LParen], inner);
    assert(stream.tokens[pos + 0].token == seq![TokenView::LParen][0]);
    assert(stream.tokens[pos + 1 + inner.len() + 0].token == seq![TokenView::RParen][0]);
    assert forall|x: u32, p: int| #[trigger]
        stands_at(stream, p, card_writer()(x)) implies yields(
        card_items()(stream, p),
        x,
        p + card_writer()(x).len(),
    ) by {
        lemma_card_parses(stream, p, x);
    }
    lemma_list_parses(stream, pos + 1, cards, card_items(), card_writer(), |n: u32| true);
}

/// The tokens that write the name of a trope parse to the name, where a
/// `(` follows them.
pub proof fn lemma_name_parses(
    stream: StreamView,
    pos: int,
    name: Option<Seq<char>>,
    then: Seq<TokenView>,
)
    requires
        stands_at(stream, pos, name_tokens(name) + then),
        then.len() > 0,
        then[0] is LParen,
    ensures
        yields(name_at(stream, pos), name, pos + name_tokens(name).len()),
        stands_at(stream, pos + name_tokens(name).len(), then),
{
    lemma_stands_split(stream, pos, name_tokens(name), then);
    let next = pos + name_tokens(name).len();
    assert(stream.tokens[next + 0].token == then[0]);
    match name {
        Some(n) => {
            assert(stream.tokens[pos + 0].token == name_tokens(name)[0]);
        },
        None => {},
    }
}

/// Whether a trope is as a parser returns it: not compiled, and with a term
/// if it is a sequence.
pub open spec fn plain(trope: TropeView) -> bool {
    match trope {
        TropeView::Trigger(t) => t.compiled is None,
        TropeView::Sequence(s) => s.compiled is None && s.terms.len() > 0,
        _ => true,
    }
}

/// The tokens of a trope: its keyword, its name and its groups.
pub open spec fn trope_tokens(trope: TropeView) -> Seq<TokenView> {
    match trope {
        TropeView::Trigger(t) => seq![TokenView::Keyword("trigger"@)] + (name_tokens(t.id)
            + group_tokens(t.entities)),
        TropeView::Sequence(s) => seq![TokenView::Keyword("sequence"@)] + (name_tokens(s.id)
            + written(s.terms, group_writer())),
        TropeView::Entities { id, entities } => seq![TokenView::Keyword("entities"@)] + (
        name_tokens(id) + group_tokens(entities)),
        TropeView::Choice { id, cards, base } => seq![TokenView::Keyword("choice"@)] + (
        name_tokens(id) + (cards_tokens(cards) + group_tokens(base))),
    }
}

/// The tokens of a trope in its parentheses.
pub open spec fn trope_form_tokens(trope: TropeView) -> Seq<TokenView> {
    seq![TokenView::LParen] + (trope_tokens(trope) + seq![TokenView::RParen])
}

/// How a trope in its parentheses is written.
pub open spec fn trope_writer() -> spec_fn(TropeView) -> Seq<TokenView> {
    |t: TropeView| trope_form_tokens(t)
}

/// The five keywords of the grammar differ from each other.
pub proof fn lemma_keywords_differ()
    ensures
        "trigger"@ != "sequence"@,
        "trigger"@ != "entities"@,
        "trigger"@ != "choice"@,
        "trigger"@ != "site"@,
        "sequence"@ != "entities"@,
        "sequence"@ != "choice"@,
        "sequence"@ != "site"@,
        "entities"@ != "choice"@,
        "entities"@ != "site"@,
        "choice"@ != "site"@,
{
    reveal_strlit("trigger");
    reveal_strlit("sequence");
    reveal_strlit("entities");
    reveal_strlit("choice");
    reveal_strlit("site");
    assert("trigger"@.len() == 7);
    assert("sequence"@.len() == 8);
    assert("entities"@.len() == 8);
    assert("choice"@.len() == 6);
    assert("site"@.len() == 4);
    assert("sequence"@[0] != "entities"@[0]);
}

/// The groups that write the terms of a sequence parse to the terms.
proof fn lemma_terms_parse(stream: StreamView, pos: int, terms: Seq<Seq<EntityView>>)
    requires
        terms.len() > 0,
        stands_at(stream, pos, written(terms, group_writer())),
        list_ends(stream, pos + written(terms, group_writer()).len()),
    ensures
        yields(terms_at(stream, pos), terms, pos + written(terms, group_writer()).len()),
{
    let all = written(terms, group_writer());
    assert(all == group_writer()(terms[0]) + written(terms.drop_first(), group_writer()));
    assert(all[0] is LParen);
    assert(stream.tokens[pos + 0].token == all[0]);
    assert(!list_ends(stream, pos));
    assert forall|x: Seq<EntityView>, p: int| #[trigger]
        stands_at(stream, p, group_writer()(x)) implies yields(
        group_items()(stream, p),
        x,
        p + group_writer()(x).len(),
    ) by {
        lemma_group_parses(stream, p, x);
    }
    lemma_list_parses(
        stream,
        pos,
        terms,
        group_items(),
        group_writer(),
        |g: Seq<EntityView>| true,
    );
}

/// The tokens that write a trope parse to the trope, where the list that
/// holds the trope ends behind them.
pub proof fn lemma_trope_parses(stream: StreamView, pos: int, trope: TropeView)
    requires
        plain(trope),
        stands_at(stream, pos, trope_tokens(trope)),
        list_ends(stream, pos + trope_tokens(trope).len()),
    ensures
        yields(trope_at(stream, pos), trope, pos + trope_tokens(trope).len()),
{
    lemma_keywords_differ();
    assert(stream.tokens[pos + 0].token == trope_tokens(trope)[0]);
    match trope {
        TropeView::Trigger(t) => {
            let group = group_tokens(t.entities);
            lemma_stands_split(
                stream,
                pos,
                seq![TokenView::Keyword("trigger"@)],
                name_tokens(t.id) + group,
            );
            lemma_name_parses(stream, pos + 1, t.id, group);
            lemma_group_parses(stream, pos + 1 + name_tokens(t.id).len(), t.entities);
            assert(at_keyword(stream, pos, "trigger"@));
            assert(TriggerView { id: t.id, entities: t.entities, compiled: None } == t);
        },
        TropeView::Sequence(s) => {
            let groups = written(s.terms, group_writer());
            assert(groups == group_writer()(s.terms[0]) + written(
                s.terms.drop_first(),
                group_writer(),
            ));
            lemma_stands_split(
                stream,
                pos,
                seq![TokenView::Keyword("sequence"@)],
                name_tokens(s.id) + groups,
            );
            lemma_name_parses(stream, pos + 1, s.id, groups);
            lemma_terms_parse(stream, pos + 1 + name_tokens(s.id).len(), s.terms);
            assert(at_keyword(stream, pos, "sequence"@));
            assert(SequenceView { id: s.id, terms: s.terms, compiled: None } == s);
        },
        TropeView::Entities { id, entities } => {
            let group = group_tokens(entities);
            lemma_stands_split(
                stream,
                pos,
                seq![TokenView::Keyword("entities"@)],
                name_tokens(id) + group,
            );
            lemma_name_parses(stream, pos + 1, id, group);
            lemma_group_parses(stream, pos + 1 + name_tokens(id).len(), entities);
            assert(at_keyword(stream, pos, "entities"@));
        },
        TropeView::Choice { id, cards, base } => {
            let groups = cards_tokens(cards) + group_tokens(base);
            lemma_stands_split(
                stream,
                pos,
                seq![TokenView::Keyword("choice"@)],
                name_tokens(id) + groups,
            );
            lemma_name_parses(stream, pos + 1, id, groups);
            let after_name = pos + 1 + name_tokens(id).len();
            lemma_stands_split(stream, after_name, cards_tokens(cards), group_tokens(base));
            lemma_cards_parse(stream, after_name, cards);
            lemma_group_parses(stream, after_name + cards_tokens(cards).len(), base);
            assert(at_keyword(stream, pos, "choice"@));
        },
    }
}

/// The tokens that write a trope in its parentheses parse to the trope.
pub proof fn lemma_trope_form_parses(stream: StreamView, pos: int, trope: TropeView)
    requires
        plain(trope),
        stands_at(stream, pos, trope_form_tokens(trope)),
    ensures
        yields(trope_form_at(stream, pos), trope, pos + trope_form_tokens(trope).len()),
{
    let inner = trope_tokens(trope);
    lemma_stands_split(stream, pos, seq![TokenView::LParen], inner + seq![TokenView::RParen]);
    lemma_stands_split(stream, pos + 1, inner, seq![TokenView::RParen]);
    assert(stream.tokens[pos + 0].token == seq![TokenView::LParen][0]);
    assert(stream.tokens[pos + 1 + inner.len() + 0].token == seq![TokenView::RParen][0]);
    lemma_trope_parses(stream, pos + 1, trope);
}

/// Whether a site is as a parser returns it.
pub open spec fn plain_site(site: SiteAstView) -> bool {
    &&& site.compiled is None
    &&& forall|i: int| 0 <= i < site.tropes.len() ==> plain(#[trigger] site.tropes[i])
}

/// The tokens of a site: its keyword and its tropes, each in its
/// parentheses.
pub open spec fn site_tokens(site: SiteAstView) -> Seq<TokenView> {
    seq![TokenView::Keyword("site"@)] + written(site.tropes, trope_writer())
}

/// Whether a form is as a parser returns it.
pub open spec fn plain_form(form: FormView) -> bool {
    match form {
        FormView::Site(site) => plain_site(site),
        FormView::Trope(trope) => plain(trope),
    }
}

/// The tokens of a top-level form.
pub open spec fn form_tokens(form: FormView) -> Seq<TokenView> {
    seq![TokenView::LParen] + (match form {
        FormView::Site(site) => site_tokens(site),
        FormView::Trope(trope) => trope_tokens(trope),
    } + seq![TokenView::RParen])
}

/// How a top-level form is written.
pub open spec fn form_writer() -> spec_fn(FormView) -> Seq<TokenView> {
    |f: FormView| form_tokens(f)
}

/// The tokens that write a top-level form parse to the form.
pub proof fn lemma_form_parses(stream: StreamView, pos: int, form: FormView)
    requires
        plain_form(form),
        stands_at(stream, pos, form_tokens(form)),
    ensures
        yields(form_at(stream, pos), form, pos + form_tokens(form).len()),
{
    lemma_keywords_differ();
    let inner = match form {
        FormView::Site(site) => site_tokens(site),
        FormView::Trope(trope) => trope_tokens(trope),
    };
    lemma_stands_split(stream, pos, seq![TokenView::LParen], inner + seq![TokenView::RParen]);
    lemma_stands_split(stream, pos + 1, inner, seq![TokenView::RParen]);
    assert(stream.tokens[pos + 0].token == seq![TokenView::LParen][0]);
    assert(stream.tokens[pos + 1 + inner.len() + 0].token == seq![TokenView::RParen][0]);
    assert(stream.tokens[pos + 1 + 0].token == inner[0]);
    match form {
        FormView::Site(site) => {
            let tropes = written(site.tropes, trope_writer());
            lemma_stands_split(stream, pos + 1, seq![TokenView::Keyword("site"@)], tropes);
            assert forall|x: TropeView, p: int|
                plain(x) && #[trigger] stands_at(stream, p, trope_writer()(x)) implies yields(
                trope_items()(stream, p),
                x,
                p + trope_writer()(x).len(),
            ) by {
                lemma_trope_form_parses(stream, p, x);
            }
            lemma_list_parses(
                stream,
                pos + 2,
                site.tropes,
                trope_items(),
                trope_writer(),
                |t: TropeView| plain(t),
            );
            assert(at_keyword(stream, pos + 1, "site"@));
            assert(SiteAstView { tropes: site.tropes, compiled: None } == site);
        },
        FormView::Trope(trope) => {
            lemma_trope_parses(stream, pos + 1, trope);
            assert(!at_keyword(stream, pos + 1, "site"@));
        },
    }
}

/// The tokens of a stream, without their places.
pub open spec fn token_kinds(stream: StreamView) -> Seq<TokenView> {
    Seq::new(stream.tokens.len(), |i: int| stream.tokens[i].token)
}

/// The tokens of a specification: those of its top-level forms.
pub open spec fn specification_tokens(forms: Seq<FormView>) -> Seq<TokenView> {
    written(forms, form_writer())
}

/// Parsing inverts writing: a stream that holds the tokens of a
/// specification, whatever their places, and ends without a fault, parses to
/// that specification.
pub proof fn lemma_parse_inverts_writing(stream: StreamView, forms: Seq<FormView>)
    requires
        stream.fault is None,
        token_kinds(stream) == specification_tokens(forms),
        forall|i: int| 0 <= i < forms.len() ==> plain_form(#[trigger] forms[i]),
    ensures
        forms_of(stream) == Ok::<Seq<FormView>, SyntaxErrorView>(forms),
{
    let all = specification_tokens(forms);
    assert(stands_at(stream, 0, all)) by {
        assert(all.len() == stream.tokens.len());
        assert forall|i: int| 0 <= i < all.len() implies (#[trigger] stream.tokens[0 + i]).token
            == all[i] by {
            assert(token_kinds(stream)[i] == stream.tokens[i].token);
        }
    }
    assert forall|x: FormView, p: int|
        plain_form(x) && #[trigger] stands_at(stream, p, form_writer()(x)) implies yields(
        form_items()(stream, p),
        x,
        p + form_writer()(x).len(),
    ) by {
        lemma_form_parses(stream, p, x);
    }
    lemma_list_parses(stream, 0, forms, form_items(), form_writer(), |f: FormView| plain_form(f));
}

} // verus!
