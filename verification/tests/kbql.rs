use khonsubase::kbql::ast::{Decimal, Expression, Literal, Query, Term};
use khonsubase::kbql::error::ErrorKind;
use khonsubase::kbql::lexer::tokenize;
use khonsubase::kbql::parser::{Error, ParseError};
use khonsubase::kbql::token::{Lexeme, Token};

fn path(path: &[&str]) -> Term {
    Term::Lookup(path.iter().map(|segment| segment.to_string()).collect())
}

fn term(term: Term) -> Box<Expression> {
    Box::new(Expression::Term(term))
}

fn integer(value: i64) -> Term {
    Term::Literal(Literal::Integer(value))
}

fn lexeme(token: Token, start: usize, end: usize) -> Lexeme {
    Lexeme { token, start, end }
}

fn identifier(name: &str, start: usize, end: usize) -> Lexeme {
    lexeme(Token::Identifier(name.to_owned()), start, end)
}

fn quoted(text: &str, start: usize, end: usize) -> Lexeme {
    lexeme(Token::String(text.to_owned()), start, end)
}

fn kind_of(source: &str) -> ErrorKind {
    Query::parse(source).unwrap_err().kind
}

#[test]
fn simple_query() {
    assert_eq!(
        Query::parse("id is (5 and 1)").unwrap(),
        Query {
            expression: Expression::Is(
                Box::new(Expression::Term(Term::Lookup(vec!["id".to_owned()]))),
                Box::new(Expression::Term(Term::Expression(Box::new(
                    Expression::And(
                        Box::new(Expression::Term(Term::Literal(Literal::Integer(5)))),
                        Box::new(Expression::Term(Term::Literal(Literal::Integer(1))))
                    )
                )))),
            ),
            returning: Default::default()
        }
    )
}

#[test]
fn terms() {
    assert_eq!(
        Query::parse("id").unwrap(),
        Query {
            expression: Expression::Term(Term::Lookup(vec!["id".to_owned()])),
            returning: Default::default()
        }
    );

    assert_eq!(
        Query::parse("5").unwrap(),
        Query {
            expression: Expression::Term(Term::Literal(Literal::Integer(5))),
            returning: Default::default()
        }
    );

    let parsed = Query::parse("-5.0").unwrap();
    assert_eq!(
        parsed,
        Query {
            expression: Expression::Term(Term::Literal(Literal::Float(
                Decimal::new("-5.0").unwrap()
            ))),
            returning: Default::default()
        }
    );
    match parsed.expression {
        Expression::Term(Term::Literal(Literal::Float(decimal))) => {
            assert_eq!(decimal.as_str().parse::<f64>().unwrap(), -5.0)
        }
        other => panic!("not a number with a fraction: {:?}", other),
    }

    assert_eq!(
        Query::parse("not id").unwrap(),
        Query {
            expression: Expression::Term(Term::Not(Box::new(Term::Lookup(vec![
                "id".to_owned()
            ])))),
            returning: Default::default()
        }
    );

    assert_eq!(
        Query::parse("(id)").unwrap(),
        Query {
            expression: Expression::Term(Term::Expression(Box::new(Expression::Term(
                Term::Lookup(vec!["id".to_owned()])
            )))),
            returning: Default::default()
        }
    );
}

#[test]
fn expressions() {
    assert_eq!(
        Query::parse("id is 5").unwrap(),
        Query {
            expression: Expression::Is(
                Box::new(Expression::Term(Term::Lookup(vec!["id".to_owned()]))),
                Box::new(Expression::Term(Term::Literal(Literal::Integer(5))))
            ),
            returning: Default::default()
        }
    );

    assert_eq!(
        Query::parse("id is not 5").unwrap(),
        Query {
            expression: Expression::IsNot(
                Box::new(Expression::Term(Term::Lookup(vec!["id".to_owned()]))),
                Box::new(Expression::Term(Term::Literal(Literal::Integer(5))))
            ),
            returning: Default::default()
        }
    );

    assert_eq!(
        Query::parse("id and 5").unwrap(),
        Query {
            expression: Expression::And(
                Box::new(Expression::Term(Term::Lookup(vec!["id".to_owned()]))),
                Box::new(Expression::Term(Term::Literal(Literal::Integer(5))))
            ),
            returning: Default::default()
        }
    );

    assert_eq!(
        Query::parse("id or 5").unwrap(),
        Query {
            expression: Expression::Or(
                Box::new(Expression::Term(Term::Lookup(vec!["id".to_owned()]))),
                Box::new(Expression::Term(Term::Literal(Literal::Integer(5))))
            ),
            returning: Default::default()
        }
    );

    assert_eq!(
        Query::parse("a is 1 and b is 2 or c is 3").unwrap(),
        Query {
            expression: Expression::Or(
                Box::new(Expression::And(
                    Box::new(Expression::Is(
                        Box::new(Expression::Term(Term::Lookup(vec!["a".to_owned()]))),
                        Box::new(Expression::Term(Term::Literal(Literal::Integer(1))))
                    )),
                    Box::new(Expression::Is(
                        Box::new(Expression::Term(Term::Lookup(vec!["b".to_owned()]))),
                        Box::new(Expression::Term(Term::Literal(Literal::Integer(2))))
                    ))
                )),
                Box::new(Expression::Is(
                    Box::new(Expression::Term(Term::Lookup(vec!["c".to_owned()]))),
                    Box::new(Expression::Term(Term::Literal(Literal::Integer(3))))
                ))
            ),
            returning: Default::default()
        }
    );
}

#[test]
fn returning() {
    assert_eq!(
        Query::parse("completed returning id").unwrap(),
        Query {
            expression: Expression::Term(Term::Lookup(vec!["completed".to_owned()])),
            returning: vec![Term::Lookup(vec!["id".to_owned()])],
        }
    );

    assert_eq!(
        Query::parse("completed returning id, project").unwrap(),
        Query {
            expression: Expression::Term(Term::Lookup(vec!["completed".to_owned()])),
            returning: vec![
                Term::Lookup(vec!["id".to_owned()]),
                Term::Lookup(vec!["project".to_owned()]),
            ]
        }
    );
}

#[test]
fn string() {
    assert_eq!(
        tokenize(r#""abc""#),
        vec![quoted("abc", 0, 5), lexeme(Token::End, 5, 5)]
    );
    let source = r#""abc""#;
    assert_eq!(&source[1..4], "abc");
}

#[test]
fn string_with_escapes() {
    let source = r#""abc\"def\"ghi""#;
    assert_eq!(
        tokenize(source),
        vec![quoted(r#"abc"def"ghi"#, 0, 15), lexeme(Token::End, 15, 15)]
    );
    assert_eq!(&source[1..14], r#"abc\"def\"ghi"#);
}

#[test]
fn raw_terms() {
    assert_eq!(
        tokenize(r#""abc""#),
        vec![quoted("abc", 0, 5), lexeme(Token::End, 5, 5)]
    );
    assert_eq!(
        Query::parse(r#""abc""#).unwrap().expression,
        Expression::Term(Term::Literal(Literal::String("abc".to_owned())))
    );

    assert_eq!(
        tokenize(r#"1234"#),
        vec![lexeme(Token::Integer(1234), 0, 4), lexeme(Token::End, 4, 4)]
    );
    assert_eq!(
        Query::parse(r#"1234"#).unwrap().expression,
        Expression::Term(integer(1234))
    );

    assert_eq!(
        tokenize(r#"1234.5678"#),
        vec![
            lexeme(Token::Float(Decimal::new("1234.5678").unwrap()), 0, 9),
            lexeme(Token::End, 9, 9)
        ]
    );

    assert_eq!(
        tokenize(r#"foo"#),
        vec![identifier("foo", 0, 3), lexeme(Token::End, 3, 3)]
    );
    assert_eq!(
        Query::parse(r#"foo"#).unwrap().expression,
        Expression::Term(path(&["foo"]))
    );
}

#[test]
fn lookup() {
    assert_eq!(
        tokenize(r#"foo.bar.baz"#),
        vec![
            identifier("foo", 0, 3),
            lexeme(Token::Dot, 3, 4),
            identifier("bar", 4, 7),
            lexeme(Token::Dot, 7, 8),
            identifier("baz", 8, 11),
            lexeme(Token::End, 11, 11),
        ]
    );
    assert_eq!(
        Query::parse(r#"foo.bar.baz"#).unwrap().expression,
        Expression::Term(path(&["foo", "bar", "baz"]))
    );
}

#[test]
fn comparison() {
    assert_eq!(
        tokenize(r#"foo is "bar""#),
        vec![
            identifier("foo", 0, 3),
            lexeme(Token::Is, 4, 6),
            quoted("bar", 7, 12),
            lexeme(Token::End, 12, 12),
        ]
    );
    assert_eq!(
        Query::parse(r#"foo is "bar""#).unwrap().expression,
        Expression::Is(
            term(path(&["foo"])),
            term(Term::Literal(Literal::String("bar".to_owned())))
        )
    );
}

#[test]
fn logic() {
    assert_eq!(
        tokenize(r#"foo and bar"#),
        vec![
            identifier("foo", 0, 3),
            lexeme(Token::And, 4, 7),
            identifier("bar", 8, 11),
            lexeme(Token::End, 11, 11),
        ]
    );
    assert_eq!(
        Query::parse(r#"foo and bar"#).unwrap().expression,
        Expression::And(term(path(&["foo"])), term(path(&["bar"])))
    );
}

#[test]
fn chained_expressions() {
    assert_eq!(
        tokenize(r#"foo is "bar" and foo is not "baz""#),
        vec![
            identifier("foo", 0, 3),
            lexeme(Token::Is, 4, 6),
            quoted("bar", 7, 12),
            lexeme(Token::And, 13, 16),
            identifier("foo", 17, 20),
            lexeme(Token::Is, 21, 23),
            lexeme(Token::Not, 24, 27),
            quoted("baz", 28, 33),
            lexeme(Token::End, 33, 33),
        ]
    );
    assert_eq!(
        Query::parse(r#"foo is "bar" and foo is not "baz""#)
            .unwrap()
            .expression,
        Expression::And(
            Box::new(Expression::Is(
                term(path(&["foo"])),
                term(Term::Literal(Literal::String("bar".to_owned())))
            )),
            Box::new(Expression::IsNot(
                term(path(&["foo"])),
                term(Term::Literal(Literal::String("baz".to_owned())))
            )),
        )
    );
}

#[test]
fn parsing_twice_gives_equal_trees() {
    let source = "a.b is not (c or not d) and e is -12 returning a, (b is 1.50)";
    assert_eq!(Query::parse(source).unwrap(), Query::parse(source).unwrap());
    assert_eq!(
        Query::parse("a and").unwrap_err(),
        Query::parse("a and").unwrap_err()
    );
}

#[test]
fn chains_nest_to_the_left() {
    let a = || term(path(&["a"]));
    assert_eq!(
        Query::parse("a or a and a or a").unwrap().expression,
        Expression::Or(
            Box::new(Expression::And(
                Box::new(Expression::Or(a(), a())),
                a()
            )),
            a()
        )
    );
    assert_eq!(
        Query::parse("a is a is not a is a").unwrap().expression,
        Expression::Is(
            Box::new(Expression::IsNot(
                Box::new(Expression::Is(a(), a())),
                a()
            )),
            a()
        )
    );
}

#[test]
fn not_after_is_belongs_to_the_operator() {
    let a = || term(path(&["a"]));
    assert_eq!(
        Query::parse("a is not not a").unwrap().expression,
        Expression::IsNot(a(), term(Term::Not(Box::new(path(&["a"])))))
    );
    assert_eq!(
        Query::parse("a is (not a)").unwrap().expression,
        Expression::Is(
            a(),
            term(Term::Expression(term(Term::Not(Box::new(path(&["a"]))))))
        )
    );
    assert_eq!(
        Query::parse("not not a").unwrap().expression,
        Expression::Term(Term::Not(Box::new(Term::Not(Box::new(path(&["a"]))))))
    );
}

#[test]
fn malformed_queries_are_errors() {
    assert_eq!(kind_of(""), ErrorKind::ExpectedTerm);
    assert_eq!(kind_of("   \n\t "), ErrorKind::ExpectedTerm);
    assert_eq!(kind_of("(a"), ErrorKind::ExpectedRightParen);
    assert_eq!(kind_of("a)"), ErrorKind::ExpectedOperatorOrEnd);
    assert_eq!(kind_of("((a)"), ErrorKind::ExpectedRightParen);
    assert_eq!(kind_of("a and"), ErrorKind::ExpectedTerm);
    assert_eq!(kind_of("a or"), ErrorKind::ExpectedTerm);
    assert_eq!(kind_of("a is"), ErrorKind::ExpectedTerm);
    assert_eq!(kind_of("a is not"), ErrorKind::ExpectedTerm);
    assert_eq!(kind_of("not"), ErrorKind::ExpectedTerm);
    assert_eq!(kind_of("a returning"), ErrorKind::ExpectedTerm);
    assert_eq!(kind_of("a returning b,"), ErrorKind::ExpectedTerm);
    assert_eq!(kind_of("a returning b c"), ErrorKind::ExpectedCommaOrEnd);
    assert_eq!(kind_of("a b"), ErrorKind::ExpectedOperatorOrEnd);
    assert_eq!(kind_of("a."), ErrorKind::ExpectedIdentifier);
    assert_eq!(kind_of("a.5"), ErrorKind::ExpectedIdentifier);
    assert_eq!(kind_of("a.is"), ErrorKind::ExpectedIdentifier);
    assert_eq!(kind_of("a $ b"), ErrorKind::UnrecognizedCharacter);
    assert_eq!(kind_of("a is -"), ErrorKind::UnrecognizedCharacter);
    assert_eq!(kind_of("\"abc"), ErrorKind::UnterminatedString);
    assert_eq!(kind_of("\"abc\\\""), ErrorKind::UnterminatedString);
    assert_eq!(kind_of("and"), ErrorKind::ExpectedTerm);
    assert_eq!(kind_of("5."), ErrorKind::ExpectedOperatorOrEnd);
}

#[test]
fn the_first_violation_in_reading_order_is_reported() {
    let error = Query::parse("a ) $").unwrap_err();
    assert_eq!(error.kind, ErrorKind::ExpectedOperatorOrEnd);
    assert_eq!(error.position, 2);
    let error = Query::parse("a $ )").unwrap_err();
    assert_eq!(error.kind, ErrorKind::UnrecognizedCharacter);
    assert_eq!(error.position, 2);
}

#[test]
fn errors_carry_their_place() {
    assert_eq!(
        Query::parse("id is\n  ) or x").unwrap_err(),
        ParseError {
            kind: ErrorKind::ExpectedTerm,
            found: ")".to_owned(),
            position: 8,
            offset: 8,
            line: 1,
            column: 2,
        }
    );
    assert_eq!(
        Query::parse("\"é\" is €").unwrap_err(),
        ParseError {
            kind: ErrorKind::UnrecognizedCharacter,
            found: "€".to_owned(),
            position: 7,
            offset: 8,
            line: 0,
            column: 7,
        }
    );
    assert_eq!(
        Query::parse("a and").unwrap_err(),
        ParseError {
            kind: ErrorKind::ExpectedTerm,
            found: String::new(),
            position: 5,
            offset: 5,
            line: 0,
            column: 5,
        }
    );
    assert_eq!(
        Query::parse("a is unless returning").unwrap_err(),
        ParseError {
            kind: ErrorKind::ExpectedTerm,
            found: String::new(),
            position: 21,
            offset: 21,
            line: 0,
            column: 21,
        }
    );
}

#[test]
fn words_are_read_as_far_as_they_go() {
    assert_eq!(
        Query::parse("nothing is android").unwrap().expression,
        Expression::Is(term(path(&["nothing"])), term(path(&["android"])))
    );
    assert_eq!(
        Query::parse("_x1.Is.NOT").unwrap().expression,
        Expression::Term(path(&["_x1", "Is", "NOT"]))
    );
    assert_eq!(
        Query::parse("not(a)\tor\r\nb").unwrap().expression,
        Expression::Or(
            term(Term::Not(Box::new(Term::Expression(term(path(&["a"])))))),
            term(path(&["b"]))
        )
    );
    assert_eq!(
        Query::parse("a . b").unwrap().expression,
        Expression::Term(path(&["a", "b"]))
    );
}

#[test]
fn numbers() {
    assert_eq!(
        Query::parse("-0").unwrap().expression,
        Expression::Term(integer(0))
    );
    assert_eq!(
        Query::parse("007").unwrap().expression,
        Expression::Term(integer(7))
    );
    assert_eq!(
        Query::parse("9223372036854775807").unwrap().expression,
        Expression::Term(integer(i64::MAX))
    );
    assert_eq!(
        Query::parse("-9223372036854775808").unwrap().expression,
        Expression::Term(integer(i64::MIN))
    );
    assert_eq!(kind_of("9223372036854775808"), ErrorKind::IntegerOutOfRange);
    assert_eq!(kind_of("-9223372036854775809"), ErrorKind::IntegerOutOfRange);
    assert_eq!(
        kind_of("123456789012345678901234567890"),
        ErrorKind::IntegerOutOfRange
    );
    assert_eq!(
        Query::parse("123456789012345678901234567890.5")
            .unwrap()
            .expression,
        Expression::Term(Term::Literal(Literal::Float(
            Decimal::new("123456789012345678901234567890.5").unwrap()
        )))
    );
    assert_eq!(kind_of("1.5.2"), ErrorKind::ExpectedOperatorOrEnd);
    assert!(Decimal::new("5").is_none());
    assert!(Decimal::new("5.").is_none());
    assert!(Decimal::new(".5").is_none());
    assert!(Decimal::new("-5.0 ").is_none());
    assert!(Decimal::new("").is_none());
    assert_eq!(Decimal::new("-0.25").unwrap().as_str(), "-0.25");
}

#[test]
fn strings_decode_only_escaped_quotes() {
    assert_eq!(
        Query::parse(r#""a\\\"b\n""#).unwrap().expression,
        Expression::Term(Term::Literal(Literal::String(r#"a\\"b\n"#.to_owned())))
    );
    assert_eq!(
        Query::parse("\"\"").unwrap().expression,
        Expression::Term(Term::Literal(Literal::String(String::new())))
    );
    assert_eq!(
        Query::parse("\"and (\nñ\"").unwrap().expression,
        Expression::Term(Term::Literal(Literal::String("and (\nñ".to_owned())))
    );
}

#[test]
fn nesting_is_limited() {
    let deep = |levels: usize| format!("{}a{}", "(".repeat(levels), ")".repeat(levels));
    assert!(Query::parse(&deep(128)).is_ok());
    let error = Query::parse(&deep(129)).unwrap_err();
    assert_eq!(error.kind, ErrorKind::NestingTooDeep);
    assert_eq!(error.position, 128);
    assert!(Query::parse_with_limit("not (a)", 2).is_ok());
    assert_eq!(
        Query::parse_with_limit("not (not a)", 2).unwrap_err().kind,
        ErrorKind::NestingTooDeep
    );
    assert_eq!(
        Query::parse_with_limit("(a)", 0).unwrap_err().kind,
        ErrorKind::NestingTooDeep
    );
    assert!(Query::parse_with_limit("a is b and c", 0).is_ok());
    let flood = "(".repeat(200_000);
    assert_eq!(kind_of(&flood), ErrorKind::NestingTooDeep);
    let flood = "not ".repeat(200_000);
    assert_eq!(kind_of(&flood), ErrorKind::NestingTooDeep);
}

#[test]
fn clones_are_equal() {
    let query = Query::parse("a.b is \"x\" or not (c is 1.5) returning d").unwrap();
    assert_eq!(query.expression.clone(), query.expression);
    assert_eq!(query.returning[0].clone(), query.returning[0]);
}

#[test]
fn printing_and_parsing_gives_the_query_back() {
    let sources = [
        "id",
        "a.b.c is not (c or not d) and e is -12 returning a, (b is 1.50), not x",
        "a is 1 and b is 2 or c is 3",
        "not not (not a)",
        "\"say \\\"hi\\\"\" is name",
        "\"\" is \"\\\\\\\"\"",
        "x is not not y",
        "((((a))))",
        "a returning b",
        "-9223372036854775808 is 9223372036854775807",
    ];
    for source in sources {
        let query = Query::parse(source).unwrap();
        let printed = query.to_source();
        assert_eq!(Query::parse(&printed).unwrap(), query, "{}", printed);
    }
}

#[test]
fn printed_text() {
    let print = |source: &str| Query::parse(source).unwrap().to_source();
    assert_eq!(print("  id   is(5 and 1 )"), "id is (5 and 1)");
    assert_eq!(print("a . b is  not  007"), "a.b is not 7");
    assert_eq!(print("not(a)or  b returning c ,d.e"), "not (a) or b returning c, d.e");
    assert_eq!(print("\"a\\\"b\" is -0.50"), "\"a\\\"b\" is -0.50");
    assert_eq!(print("-0"), "0");
}

#[test]
fn tokens_of_a_query() {
    let query = Query::parse("a.b is not (1)").unwrap();
    assert_eq!(
        query.to_tokens(),
        vec![
            Token::Identifier("a".to_owned()),
            Token::Dot,
            Token::Identifier("b".to_owned()),
            Token::Is,
            Token::Not,
            Token::LeftParen,
            Token::Integer(1),
            Token::RightParen,
            Token::End,
        ]
    );
    let read: Vec<Token> = tokenize("a.b is not (1)")
        .into_iter()
        .map(|lexeme| lexeme.token)
        .collect();
    assert_eq!(query.to_tokens(), read);
}

#[test]
fn errors_in_words() {
    assert_eq!(
        Query::parse("a is )").unwrap_err().to_string(),
        "expected a term at byte 5, found `)`"
    );
    assert_eq!(
        Query::parse("a.").unwrap_err().to_string(),
        "expected an identifier at byte 2, found the end of the query"
    );
    assert_eq!(
        Query::parse("\"é\" ~").unwrap_err().to_string(),
        "unrecognized character at byte 5, found `~`"
    );
    assert_eq!(
        Query::parse("\"open").unwrap_err().to_string(),
        "unterminated string at byte 0, found `\"open`"
    );
    assert_eq!(
        Query::parse("99999999999999999999").unwrap_err().to_string(),
        "number out of range at byte 0, found `99999999999999999999`"
    );
    assert_eq!(
        Query::parse("(a").unwrap_err().to_string(),
        "expected `)` at byte 2, found the end of the query"
    );
    assert_eq!(
        Query::parse("a b").unwrap_err().to_string(),
        "expected an operator, `returning` or the end of the query at byte 2, found `b`"
    );
    assert_eq!(
        Query::parse("a returning b (").unwrap_err().to_string(),
        "expected `,` or the end of the query at byte 14, found `(`"
    );
    assert_eq!(
        Query::parse_with_limit("not a", 0).unwrap_err().to_string(),
        "nested too deeply at byte 0, found `not`"
    );
    assert_eq!(
        Error::Parse(Query::parse("").unwrap_err()).to_string(),
        "error parsing: expected a term at byte 0, found the end of the query"
    );
}

#[test]
fn long_chains_are_read() {
    let links = 20_000;
    let source = format!("a{}", " and a is b".repeat(links));
    let query = Query::parse(&source).unwrap();
    let mut depth = 0;
    let mut expression = &query.expression;
    while let Expression::And(lhs, _) = expression {
        depth += 1;
        expression = lhs;
    }
    assert_eq!(depth, links);
}
