use ersatz::ast::Trope;
use ersatz::lexer::{scan, LexemeKind};
use ersatz::parser::{parse_forms, Expected, Form, Reason, SyntaxError};
use ersatz::token::{tokens, Token};
use ersatz::{Entity, EntitySet, Ersatz, Reaction};

fn name(text: &str) -> Entity {
    Entity::Name(text.to_string())
}

fn holds(set: &EntitySet, numbers: &[u32], names: &[&str]) -> bool {
    set.number_count() == numbers.len()
        && set.name_count() == names.len()
        && numbers.iter().all(|n| set.contains(&Entity::Number(*n)))
        && names.iter().all(|s| set.contains(&Entity::Name(s.to_string())))
}

fn is_rule(reaction: &Reaction, reactants: (&[u32], &[&str]), products: (&[u32], &[&str])) -> bool {
    holds(&reaction.r, reactants.0, reactants.1)
        && reaction.i.is_empty()
        && holds(&reaction.p, products.0, products.1)
}

fn error_of(text: &str) -> SyntaxError {
    match Ersatz::from_str(text) {
        Ok(_) => panic!("the text parsed"),
        Err(e) => e,
    }
}

fn expected(offset: usize, what: Expected) -> SyntaxError {
    SyntaxError { offset, reason: Reason::Expected(what) }
}

#[test]
fn a_text_is_cut_into_lexemes() {
    let (lexemes, fault) = scan("(site $a 12)");
    assert_eq!(fault, None);
    let kinds: Vec<LexemeKind> = lexemes.iter().map(|l| l.kind).collect();
    assert_eq!(
        kinds,
        vec![
            LexemeKind::LParen,
            LexemeKind::Keyword,
            LexemeKind::Blank,
            LexemeKind::Id,
            LexemeKind::Blank,
            LexemeKind::Integer,
            LexemeKind::RParen,
        ]
    );
    let offsets: Vec<usize> = lexemes.iter().map(|l| l.offset).collect();
    assert_eq!(offsets, vec![0, 1, 5, 6, 8, 9, 11]);
    let lens: Vec<u32> = lexemes.iter().map(|l| l.len).collect();
    assert_eq!(lens, vec![1, 4, 1, 2, 1, 2, 1]);
}

#[test]
fn a_scan_stops_at_a_fault() {
    let (lexemes, fault) = scan("(a \u{1}");
    assert_eq!(lexemes.len(), 3);
    let fault = fault.unwrap();
    assert_eq!(fault.offset, 3);
}

#[test]
fn tokens_say_what_the_lexemes_hold() {
    let stream = tokens("(site $grp name 0x1f 1_000 \"s\" 99999999999)");
    assert_eq!(stream.fault, None);
    assert_eq!(stream.end, 43);
    let found: Vec<Token> = stream.tokens.iter().map(|t| t.token.clone()).collect();
    assert_eq!(
        found,
        vec![
            Token::LParen,
            Token::Keyword("site".to_string()),
            Token::Id("grp".to_string()),
            Token::Keyword("name".to_string()),
            Token::Integer(Some(31)),
            Token::Integer(Some(1000)),
            Token::Other,
            Token::Integer(None),
            Token::RParen,
        ]
    );
    let offsets: Vec<usize> = stream.tokens.iter().map(|t| t.offset).collect();
    assert_eq!(offsets, vec![0, 1, 6, 11, 16, 21, 27, 31, 42]);
}

#[test]
fn white_space_and_comments_are_no_tokens() {
    let stream = tokens(";; a line\n  ( (; a block (; nested ;) ;) ) ");
    assert_eq!(stream.fault, None);
    let found: Vec<Token> = stream.tokens.iter().map(|t| t.token.clone()).collect();
    assert_eq!(found, vec![Token::LParen, Token::RParen]);
}

#[test]
fn annotations_are_no_tokens() {
    let stream = tokens("(a (@note (nested (deep)) 1 $x) b)");
    assert_eq!(stream.fault, None);
    let found: Vec<Token> = stream.tokens.iter().map(|t| t.token.clone()).collect();
    assert_eq!(
        found,
        vec![
            Token::LParen,
            Token::Keyword("a".to_string()),
            Token::Keyword("b".to_string()),
            Token::RParen,
        ]
    );
}

#[test]
fn an_annotation_name_away_from_its_parenthesis_is_a_token() {
    let stream = tokens("( @note)");
    let found: Vec<Token> = stream.tokens.iter().map(|t| t.token.clone()).collect();
    assert_eq!(found, vec![Token::LParen, Token::Other, Token::RParen]);
}

#[test]
fn an_unclosed_annotation_ends_the_tokens_in_a_fault() {
    let stream = tokens("(a (@note (x)");
    let found: Vec<Token> = stream.tokens.iter().map(|t| t.token.clone()).collect();
    assert_eq!(found, vec![Token::LParen, Token::Keyword("a".to_string())]);
    let fault = stream.fault.unwrap();
    assert_eq!(fault.offset, 4);
    assert_eq!(fault.message, "unclosed annotation");
}

#[test]
fn an_identifier_without_a_name_is_kept_as_such() {
    let stream = tokens("($)");
    assert_eq!(stream.tokens.len(), 3);
    assert!(matches!(stream.tokens[1].token, Token::BadId(_)));
}

#[test]
fn end_to_end() {
    let model = Ersatz::from_str("(site (trigger (1)) (sequence (1) (2)))").unwrap();
    assert_eq!(model.sites().len(), 1);
    let reactions = model.sites()[0].reactions();
    assert_eq!(reactions.len(), 3);
    assert!(is_rule(&reactions[0], (&[], &[]), (&[1], &[])));
    assert!(is_rule(&reactions[1], (&[], &[]), (&[1], &[])));
    assert!(is_rule(&reactions[2], (&[1], &[]), (&[2], &[])));
    assert_eq!(model.ground().len(), 0);
    assert_eq!(model.max_steps(), None);
}

#[test]
fn a_trigger_in_a_text() {
    let model = Ersatz::from_str("(site (trigger (5 x)))").unwrap();
    let reactions = model.sites()[0].reactions();
    assert_eq!(reactions.len(), 1);
    assert!(is_rule(&reactions[0], (&[], &[]), (&[5], &["x"])));
}

#[test]
fn a_sequence_in_a_text() {
    let model = Ersatz::from_str("(site (sequence $chain (7) (a) (9)))").unwrap();
    let reactions = model.sites()[0].reactions();
    assert_eq!(reactions.len(), 3);
    assert!(is_rule(&reactions[0], (&[], &[]), (&[7], &[])));
    assert!(is_rule(&reactions[1], (&[7], &[]), (&[], &["a"])));
    assert!(is_rule(&reactions[2], (&[], &["a"]), (&[9], &[])));
}

#[test]
fn sites_come_in_the_order_of_their_declaration() {
    let text = "(site (trigger (1)))\n(trigger $global (9))\n(site)\n(site (trigger (2)) (trigger (3)))";
    let model = Ersatz::from_str(text).unwrap();
    assert_eq!(model.sites().len(), 3);
    assert_eq!(model.sites()[0].reactions().len(), 1);
    assert_eq!(model.sites()[1].reactions().len(), 0);
    assert_eq!(model.sites()[2].reactions().len(), 2);
    assert!(is_rule(&model.sites()[2].reactions()[1], (&[], &[]), (&[3], &[])));
}

#[test]
fn the_empty_text_is_the_empty_model() {
    let model = Ersatz::from_str("").unwrap();
    assert_eq!(model.sites().len(), 0);
    let model = Ersatz::from_str("  ;; nothing here\n").unwrap();
    assert_eq!(model.sites().len(), 0);
}

#[test]
fn entities_and_choice_are_parsed_in_full() {
    let stream = tokens("(site (entities $g (1 a $h)) (choice $c (1 2) (x y)) (choice (3) ()))");
    let forms = parse_forms(&stream).unwrap();
    assert_eq!(forms.len(), 1);
    let site = match &forms[0] {
        Form::Site(site) => site,
        Form::Trope(_) => panic!("a trope"),
    };
    assert_eq!(site.tropes.len(), 3);
    match &site.tropes[0] {
        Trope::Entities(ast) => {
            assert_eq!(ast.id, Some("g".to_string()));
            assert_eq!(
                ast.entities,
                vec![Entity::Number(1), name("a"), Entity::Identifier("h".to_string())]
            );
        }
        _ => panic!("no entities"),
    }
    match &site.tropes[1] {
        Trope::Choice(ast) => {
            assert_eq!(ast.id, Some("c".to_string()));
            assert_eq!(ast.cards, vec![1, 2]);
            assert_eq!(ast.base, vec![name("x"), name("y")]);
        }
        _ => panic!("no choice"),
    }
    match &site.tropes[2] {
        Trope::Choice(ast) => {
            assert_eq!(ast.id, None);
            assert_eq!(ast.cards, vec![3]);
            assert!(ast.base.is_empty());
        }
        _ => panic!("no choice"),
    }
    let model = Ersatz::from_forms(forms);
    assert_eq!(model.sites().len(), 1);
    assert_eq!(model.sites()[0].reactions().len(), 0);
}

#[test]
fn a_trope_keeps_its_name_and_terms() {
    let stream = tokens("(sequence $s (1 2) () (a))");
    let forms = parse_forms(&stream).unwrap();
    match &forms[0] {
        Form::Trope(Trope::Sequence(ast)) => {
            assert_eq!(ast.id, Some("s".to_string()));
            assert_eq!(
                ast.terms,
                vec![vec![Entity::Number(1), Entity::Number(2)], vec![], vec![name("a")]]
            );
            assert!(ast.compiled.is_none());
        }
        _ => panic!("no sequence"),
    }
}

#[test]
fn identifiers_in_a_group_are_parsed_and_then_dropped() {
    let model = Ersatz::from_str("(site (trigger ($group 1)))").unwrap();
    let reactions = model.sites()[0].reactions();
    assert!(is_rule(&reactions[0], (&[], &[]), (&[1], &[])));
}

#[test]
fn an_unknown_keyword_is_no_trope() {
    assert_eq!(error_of("(site (bogus))"), expected(7, Expected::Trope));
    assert_eq!(error_of("(bogus (1))"), expected(1, Expected::Trope));
    assert_eq!(error_of("(site ())"), expected(7, Expected::Trope));
    assert_eq!(error_of("(12)"), expected(1, Expected::Trope));
}

#[test]
fn a_form_starts_with_a_parenthesis() {
    assert_eq!(error_of("site"), expected(0, Expected::LParen));
    assert_eq!(error_of("(site trigger)"), expected(6, Expected::LParen));
}

#[test]
fn a_missing_group_is_an_error() {
    assert_eq!(error_of("(trigger $t)"), expected(11, Expected::LParen));
    assert_eq!(error_of("(entities $e)"), expected(12, Expected::LParen));
    assert_eq!(error_of("(entities $e 1)"), expected(13, Expected::LParen));
    assert_eq!(error_of("(choice (1))"), expected(11, Expected::LParen));
    assert_eq!(error_of("(choice $c)"), expected(10, Expected::LParen));
}

#[test]
fn a_sequence_needs_a_term() {
    assert_eq!(error_of("(sequence $s)"), expected(12, Expected::LParen));
    assert_eq!(error_of("(site (sequence $s))"), expected(18, Expected::LParen));
    assert_eq!(error_of("(sequence $s"), expected(12, Expected::LParen));
    assert_eq!(error_of("(sequence (1) 2)"), expected(14, Expected::LParen));
}

#[test]
fn a_name_is_an_identifier() {
    assert_eq!(error_of("(trigger 1 (2))"), expected(9, Expected::Identifier));
    assert_eq!(error_of("(trigger t (2))"), expected(9, Expected::Identifier));
    assert_eq!(error_of("(trigger"), expected(8, Expected::Identifier));
    assert_eq!(error_of("(sequence)"), expected(9, Expected::Identifier));
    assert_eq!(error_of("(entities)"), expected(9, Expected::Identifier));
    assert_eq!(error_of("(choice)"), expected(7, Expected::Identifier));
}

#[test]
fn an_entity_is_an_identifier_a_name_or_a_number() {
    assert_eq!(error_of("(trigger (1 \"s\"))"), expected(12, Expected::Entity));
    assert_eq!(error_of("(trigger (1 (2)))"), expected(12, Expected::Entity));
    assert_eq!(error_of("(trigger (1.5))"), expected(10, Expected::Entity));
    assert_eq!(error_of("(trigger (1 ,))"), expected(12, Expected::Entity));
}

#[test]
fn a_number_fits_in_32_bits() {
    let model = Ersatz::from_str("(site (trigger (4294967295)))").unwrap();
    assert!(is_rule(&model.sites()[0].reactions()[0], (&[], &[]), (&[4294967295], &[])));
    assert_eq!(error_of("(trigger (4294967296))"), expected(10, Expected::U32InRange));
    assert_eq!(error_of("(trigger (-1))"), expected(10, Expected::U32InRange));
    assert_eq!(error_of("(choice (0x100000000) (1))"), expected(9, Expected::U32InRange));
}

#[test]
fn a_cardinality_is_a_number() {
    assert_eq!(error_of("(choice (x) (1))"), expected(9, Expected::U32));
    assert_eq!(error_of("(choice ($x) (1))"), expected(9, Expected::U32));
    assert_eq!(error_of("(choice (1 \"s\") (1))"), expected(11, Expected::U32));
}

#[test]
fn a_parenthesis_is_closed() {
    assert_eq!(error_of("(trigger (1)"), expected(12, Expected::RParen));
    assert_eq!(error_of("(trigger (1) (2))"), expected(13, Expected::RParen));
    assert_eq!(error_of("(site (trigger (1)) x)"), expected(20, Expected::LParen));
    assert_eq!(error_of("(site"), expected(5, Expected::RParen));
    assert_eq!(error_of("(trigger (1"), expected(11, Expected::RParen));
    assert_eq!(error_of("(choice (1"), expected(10, Expected::RParen));
}

#[test]
fn nothing_follows_the_last_form() {
    assert_eq!(error_of("(trigger (1)))"), expected(13, Expected::EndOfInput));
    assert_eq!(error_of(")"), expected(0, Expected::EndOfInput));
}

#[test]
fn a_fault_is_the_error_where_the_parser_meets_it() {
    let error = error_of("(trigger (1 \"open");
    assert!(matches!(error.reason, Reason::Lex(_)));
    let error = error_of("(trigger (1) \u{7f}");
    assert_eq!(error.offset, 13);
    assert!(matches!(error.reason, Reason::Lex(_)));
    let error = error_of("(site (@note");
    assert_eq!(error, SyntaxError { offset: 7, reason: Reason::Lex("unclosed annotation".to_string()) });
}

#[test]
fn the_first_error_is_returned() {
    assert_eq!(error_of("(bogus) \"open"), expected(1, Expected::Trope));
    assert_eq!(error_of("(trigger 1) (bogus)"), expected(9, Expected::Identifier));
}

#[test]
fn an_identifier_without_a_name_is_an_error() {
    let error = error_of("(trigger ($))");
    assert_eq!(error.offset, 10);
    assert!(matches!(error.reason, Reason::Lex(_)));
    let error = error_of("(trigger $ (1))");
    assert_eq!(error.offset, 9);
    assert!(matches!(error.reason, Reason::Lex(_)));
}

#[test]
fn an_error_says_what_was_expected() {
    assert_eq!(error_of("(site (bogus))").message(),
        "unexpected token, expected one of: a trigger, a sequence, entities, a choice");
    assert_eq!(error_of("(trigger (1 ,))").message(),
        "unexpected token, expected one of: an identifier, a name, u32");
    assert_eq!(error_of("site").message(), "expected `(`");
    assert_eq!(error_of("(site").message(), "expected `)`");
    assert_eq!(error_of("(trigger 1)").message(), "expected an identifier");
    assert_eq!(error_of("(choice (a) (1))").message(), "expected a u32");
    assert_eq!(error_of("(trigger (4294967296))").message(),
        "invalid u32 number: constant out of range");
    assert_eq!(error_of("(site))").message(), "extra tokens remaining after parse");
    assert_eq!(error_of("(site (@note").message(), "unclosed annotation");
    assert_eq!(Expected::U32.description(), "expected a u32");
}

#[test]
fn a_parenthesis_before_a_fault_at_an_at_sign_is_no_token() {
    let stream = tokens("(a (@\"\\q\"");
    let found: Vec<Token> = stream.tokens.iter().map(|t| t.token.clone()).collect();
    assert_eq!(found, vec![Token::LParen, Token::Keyword("a".to_string())]);
    assert!(stream.fault.is_some());
    let error = error_of("(trigger (1) (@\"\\q\"");
    assert!(matches!(error.reason, Reason::Lex(_)));
}

#[test]
fn a_parenthesis_before_any_other_fault_is_a_token() {
    let stream = tokens("(a (\u{1}");
    let found: Vec<Token> = stream.tokens.iter().map(|t| t.token.clone()).collect();
    assert_eq!(found, vec![Token::LParen, Token::Keyword("a".to_string()), Token::LParen]);
    assert!(stream.fault.is_some());
    assert_eq!(error_of("(trigger (1) (\u{1}"), expected(13, Expected::RParen));
}

#[test]
fn an_annotation_without_a_name_ends_the_tokens_in_a_fault() {
    let stream = tokens("(a (@) b)");
    let found: Vec<Token> = stream.tokens.iter().map(|t| t.token.clone()).collect();
    assert_eq!(found, vec![Token::LParen, Token::Keyword("a".to_string())]);
    assert_eq!(stream.fault.unwrap().offset, 4);
}

#[test]
fn text_beyond_ascii_keeps_its_offsets() {
    let stream = tokens("(; é ;) (trigger (1)) ;; ü\n(x é");
    let offsets: Vec<usize> = stream.tokens.iter().map(|t| t.offset).collect();
    assert_eq!(offsets, vec![9, 10, 18, 19, 20, 21, 29, 30]);
    let fault = stream.fault.unwrap();
    assert_eq!(fault.offset, 32);
}
