use std::str::FromStr;

use cmd_lib::lexer::{
    parse_str_lit, span_location, variable_piece, Delimiter, Inner, LexError, LexFault, Lexer,
    LiteralError, ParseArg, Piece, Span, Token,
};
use proc_macro2::{TokenStream, TokenTree};

fn text(s: &str) -> Piece {
    Piece::Text(s.to_string())
}

fn var(s: &str) -> Piece {
    Piece::Var(s.to_string())
}

fn chars(s: &str) -> Vec<Piece> {
    s.chars().map(Piece::Char).collect()
}

fn arg(pieces: Vec<Piece>) -> ParseArg {
    ParseArg::ParseArgStr(pieces)
}

fn word(s: &str) -> ParseArg {
    arg(vec![text(s)])
}

fn place(span: proc_macro2::Span) -> Span {
    let (start, end) = span_location(&format!("{:?}", span)).unwrap();
    Span { start, end }
}

/// The tokens of a command line, as the tokenizer of Rust source text gives them.
fn tokens(line: &str) -> Vec<Token> {
    TokenStream::from_str(line)
        .unwrap()
        .into_iter()
        .map(|tree| match tree {
            TokenTree::Group(g) => {
                let delimiter = match g.delimiter() {
                    proc_macro2::Delimiter::Parenthesis => Delimiter::Parenthesis,
                    proc_macro2::Delimiter::Brace => Delimiter::Brace,
                    proc_macro2::Delimiter::Bracket => Delimiter::Bracket,
                    proc_macro2::Delimiter::None => Delimiter::Invisible,
                };
                let items = g
                    .stream()
                    .into_iter()
                    .map(|inner| match inner {
                        TokenTree::Ident(i) => Inner::Ident(i.to_string(), place(i.span())),
                        other => Inner::Other(place(other.span())),
                    })
                    .collect();
                Token::Group(delimiter, items, place(g.span()))
            }
            TokenTree::Literal(l) => Token::Literal(l.to_string(), place(l.span())),
            TokenTree::Ident(i) => Token::Ident(i.to_string(), place(i.span())),
            TokenTree::Punct(p) => Token::Punct(p.as_char(), place(p.span())),
        })
        .collect()
}

fn scan(line: &str) -> Result<Vec<ParseArg>, LexError> {
    Lexer::default().scan(tokens(line))
}

fn fault(line: &str) -> LexFault {
    scan(line).unwrap_err().fault
}

#[test]
fn place_is_read_from_its_description() {
    assert_eq!(span_location("bytes(12..34)"), Some((12, 34)));
    assert_eq!(span_location("#0 bytes(95..96)"), Some((95, 96)));
    assert_eq!(span_location("bytes(0..0)"), Some((0, 0)));
    assert_eq!(span_location("bytes(7)"), Some((7, 0)));
}

#[test]
fn place_passes_over_the_first_six_characters() {
    assert_eq!(span_location("123456"), Some((0, 0)));
    assert_eq!(span_location("1234567.8"), Some((7, 8)));
    assert_eq!(span_location(""), Some((0, 0)));
    assert_eq!(span_location("Span"), Some((0, 0)));
}

#[test]
fn place_too_large_for_the_machine_is_none() {
    assert_eq!(span_location("bytes(99999999999999999999999999..1)"), None);
    assert_eq!(span_location("bytes(1..99999999999999999999999999)"), None);
    let max = format!("bytes({}..{})", usize::MAX, usize::MAX);
    assert_eq!(span_location(&max), Some((usize::MAX, usize::MAX)));
}

#[test]
fn places_of_real_tokens() {
    let line = tokens("echo rust");
    assert_eq!(line.len(), 2);
    let first = line[0].span();
    let second = line[1].span();
    assert_eq!(first.end - first.start, 4);
    assert_eq!(second.start, first.end + 1);
    assert_eq!(second.end - second.start, 4);
}

#[test]
fn raw_string_is_taken_as_written() {
    assert_eq!(parse_str_lit("r\"a $b\""), Ok(vec![Piece::Raw("r\"a $b\"".to_string())]));
    assert_eq!(parse_str_lit("r#\"x\"#"), Ok(vec![Piece::Raw("r#\"x\"#".to_string())]));
}

#[test]
fn plain_string_is_read_character_by_character() {
    assert_eq!(parse_str_lit("\"ab c\""), Ok(chars("ab c")));
    assert_eq!(parse_str_lit("\"\""), Ok(vec![]));
}

#[test]
fn variables_in_a_string() {
    let mut expected = chars("hi ");
    expected.push(var("name"));
    expected.push(Piece::Char('!'));
    assert_eq!(parse_str_lit("\"hi $name!\""), Ok(expected));

    let mut expected = vec![var("a")];
    expected.extend(chars("b"));
    assert_eq!(parse_str_lit("\"${a}b\""), Ok(expected));
    assert_eq!(parse_str_lit("\"$a_1$b\""), Ok(vec![var("a_1"), var("b")]));
}

#[test]
fn dollar_without_a_name_stands_for_itself() {
    assert_eq!(parse_str_lit("\"$\""), Ok(chars("$")));
    assert_eq!(parse_str_lit("\"$ x\""), Ok(chars("$ x")));
    assert_eq!(parse_str_lit("\"$1\""), Ok(chars("$1")));
    assert_eq!(parse_str_lit("\"a$$b\""), Ok(vec![Piece::Char('a'), Piece::Char('$'), var("b")]));
}

#[test]
fn escapes_in_a_string() {
    assert_eq!(
        parse_str_lit("\"a\\nb\\tc\\rd\\0e\""),
        Ok(vec![
            Piece::Char('a'),
            Piece::Char('\n'),
            Piece::Char('b'),
            Piece::Char('\t'),
            Piece::Char('c'),
            Piece::Char('\r'),
            Piece::Char('d'),
            Piece::Char('\0'),
            Piece::Char('e'),
        ])
    );
    assert_eq!(parse_str_lit("\"\\\\ \\\" \\$x\""), Ok(chars("\\ \" $x")));
}

#[test]
fn backslash_at_the_end_stands_for_nothing() {
    assert_eq!(parse_str_lit("\"ab\\\""), Ok(chars("ab")));
}

#[test]
fn unclosed_brace_is_a_bad_substitution() {
    assert_eq!(parse_str_lit("\"${a\""), Err(LiteralError::BadSubstitution));
    assert_eq!(parse_str_lit("\"${a b}\""), Err(LiteralError::BadSubstitution));
    assert_eq!(parse_str_lit("\"${}\""), Ok(chars("$")));
    assert_eq!(parse_str_lit("\""), Err(LiteralError::BadSubstitution));
}

#[test]
fn keyword_cannot_name_a_variable() {
    assert_eq!(parse_str_lit("\"$fn\""), Err(LiteralError::BadVariable));
    assert_eq!(parse_str_lit("\"${match}\""), Err(LiteralError::BadVariable));
    assert_eq!(parse_str_lit("\"$_\""), Err(LiteralError::BadVariable));
    assert_eq!(
        parse_str_lit("\"$r#fn\""),
        Ok(vec![var("r"), Piece::Char('#'), Piece::Char('f'), Piece::Char('n')])
    );
    assert_eq!(parse_str_lit("\"$fn_\""), Ok(vec![var("fn_")]));
}

#[test]
fn words_apart_are_arguments() {
    assert_eq!(scan("echo rust").unwrap(), vec![word("echo"), word("rust")]);
    assert_eq!(scan("").unwrap(), vec![]);
    assert_eq!(scan("ls").unwrap(), vec![word("ls")]);
}

#[test]
fn tokens_that_touch_are_one_argument() {
    assert_eq!(
        scan("ls /tmp/a-b").unwrap(),
        vec![
            word("ls"),
            arg(vec![
                Piece::Char('/'),
                text("tmp"),
                Piece::Char('/'),
                text("a"),
                Piece::Char('-'),
                text("b"),
            ]),
        ]
    );
    assert_eq!(
        scan("--opt=5").unwrap(),
        vec![arg(vec![
            Piece::Char('-'),
            Piece::Char('-'),
            text("opt"),
            Piece::Char('='),
            Piece::Literal("5".to_string()),
        ])]
    );
}

#[test]
fn string_and_variable_join_the_argument() {
    assert_eq!(
        scan("echo \"a b\"$x").unwrap(),
        vec![word("echo"), arg(vec![Piece::Char('a'), Piece::Char(' '), Piece::Char('b'), var("x")])]
    );
    // what follows a group after `$` must touch the `$` itself to join the argument
    assert_eq!(scan("echo ${x}y").unwrap(), vec![word("echo"), arg(vec![var("x")]), word("y")]);
    assert_eq!(scan("echo x${y}").unwrap(), vec![word("echo"), arg(vec![text("x"), var("y")])]);
    assert_eq!(scan("echo \"\"").unwrap(), vec![word("echo"), arg(vec![])]);
}

#[test]
fn list_variable_stands_alone() {
    assert_eq!(
        scan("ls $[opts] dir").unwrap(),
        vec![word("ls"), ParseArg::ParseArgVec("opts".to_string()), word("dir")]
    );
    assert_eq!(fault("ls x$[opts]"), LexFault::VectorNotAlone);
}

#[test]
fn separators() {
    assert_eq!(
        scan("a | b; c || d").unwrap(),
        vec![
            word("a"),
            ParseArg::ParsePipe,
            word("b"),
            ParseArg::ParseSemicolon,
            word("c"),
            ParseArg::ParseOr,
            word("d"),
        ]
    );
    assert_eq!(scan("a;").unwrap(), vec![word("a"), ParseArg::ParseSemicolon]);
}

#[test]
fn one_or_per_chain() {
    assert_eq!(fault("a || b || c"), LexFault::SecondOr);
    assert_eq!(
        scan("a || b; c || d").unwrap(),
        vec![
            word("a"),
            ParseArg::ParseOr,
            word("b"),
            ParseArg::ParseSemicolon,
            word("c"),
            ParseArg::ParseOr,
            word("d"),
        ]
    );
}

#[test]
fn a_command_must_follow_a_pipe() {
    assert_eq!(fault("a |"), LexFault::NoCommandAfterPipe);
    assert_eq!(fault("a ||"), LexFault::NoCommandAfterPipe);
    assert_eq!(fault("a | | b"), LexFault::NoCommandAfterPipe);
    assert_eq!(fault("a ||| b"), LexFault::NoCommandAfterPipe);
}

#[test]
fn redirects_to_files() {
    assert_eq!(
        scan("cat < in > out").unwrap(),
        vec![
            word("cat"),
            ParseArg::ParseRedirectFile(0, vec![text("in")], false),
            ParseArg::ParseRedirectFile(1, vec![text("out")], false),
        ]
    );
    assert_eq!(
        scan("cmd 2> err").unwrap(),
        vec![word("cmd"), ParseArg::ParseRedirectFile(2, vec![text("err")], false)]
    );
    assert_eq!(
        scan("cmd 1> out").unwrap(),
        vec![word("cmd"), ParseArg::ParseRedirectFile(1, vec![text("out")], false)]
    );
}

#[test]
fn redirect_of_both_streams_gives_two_redirects() {
    assert_eq!(
        scan("ls &> f").unwrap(),
        vec![
            word("ls"),
            ParseArg::ParseRedirectFile(1, vec![text("f")], false),
            ParseArg::ParseRedirectFile(2, vec![text("f")], true),
        ]
    );
    assert_eq!(
        scan("a &> /tmp/x | b").unwrap(),
        vec![
            word("a"),
            ParseArg::ParseRedirectFile(1, vec![Piece::Char('/'), text("tmp"), Piece::Char('/'), text("x")], false),
            ParseArg::ParseRedirectFile(2, vec![Piece::Char('/'), text("tmp"), Piece::Char('/'), text("x")], true),
            ParseArg::ParsePipe,
            word("b"),
        ]
    );
    // appending, where the second `>` touches the `&`
    let hand = vec![
        Token::Ident("a".to_string(), Span { start: 0, end: 1 }),
        Token::Punct('&', Span { start: 2, end: 5 }),
        Token::Punct('>', Span { start: 2, end: 5 }),
        Token::Punct('>', Span { start: 2, end: 5 }),
        Token::Ident("f".to_string(), Span { start: 6, end: 7 }),
    ];
    assert_eq!(
        Lexer::default().scan(hand).unwrap(),
        vec![
            word("a"),
            ParseArg::ParseRedirectFile(1, vec![text("f")], true),
            ParseArg::ParseRedirectFile(2, vec![text("f")], true),
        ]
    );
}

#[test]
fn redirect_ends_at_a_separator() {
    assert_eq!(
        scan("a > f | b").unwrap(),
        vec![
            word("a"),
            ParseArg::ParseRedirectFile(1, vec![text("f")], false),
            ParseArg::ParsePipe,
            word("b"),
        ]
    );
    assert_eq!(
        scan("a >").unwrap(),
        vec![word("a"), ParseArg::ParseRedirectFile(1, vec![], false)]
    );
}

#[test]
fn a_second_redirect_sign_appends_when_it_touches_the_first_token() {
    assert_eq!(
        scan("a >> f").unwrap(),
        vec![word("a"), ParseArg::ParseRedirectFile(1, vec![text("f")], true)]
    );
    assert_eq!(
        scan("a &>> f").unwrap_err().fault,
        LexFault::RedirectFormat
    );
    // after a number the second `>` counts only where both signs have one place
    let hand = vec![
        Token::Literal("2".to_string(), Span { start: 0, end: 1 }),
        Token::Punct('>', Span { start: 1, end: 3 }),
        Token::Punct('>', Span { start: 1, end: 3 }),
        Token::Ident("f".to_string(), Span { start: 4, end: 5 }),
    ];
    assert_eq!(
        Lexer::default().scan(hand).unwrap(),
        vec![ParseArg::ParseRedirectFile(2, vec![text("f")], true)]
    );
    assert_eq!(fault("a 2>> f"), LexFault::RedirectFormat);
}

#[test]
fn redirect_after_redirect_is_a_fault() {
    assert_eq!(fault("a > < f"), LexFault::RedirectFormat);
    let line = tokens("a > > f");
    let begin = line[0].span().start;
    let e = Lexer::default().scan(line).unwrap_err();
    assert_eq!(e.fault, LexFault::RedirectFormat);
    assert_eq!(e.message(), "wrong input redirect format");
    assert_eq!((e.span.start - begin, e.span.end - begin), (4, 5));
}

#[test]
fn stream_aliases() {
    // the number after `&` is read again as a token of its own
    assert_eq!(
        scan("cmd >&2").unwrap(),
        vec![word("cmd"), ParseArg::ParseRedirectFd(1, 2), arg(vec![Piece::Literal("2".to_string())])]
    );
    assert_eq!(
        scan("cmd 2>&1").unwrap(),
        vec![word("cmd"), ParseArg::ParseRedirectFd(2, 1), arg(vec![Piece::Literal("1".to_string())])]
    );
}

#[test]
fn faults_after_an_ampersand() {
    assert_eq!(fault("a &3"), LexFault::StreamNumber);
    assert_eq!(fault("a &\"x\""), LexFault::LiteralAfterAmpersand);
    assert_eq!(fault("a &;"), LexFault::Punctuation);
    assert_eq!(fault("a & b"), LexFault::TokenAfterAmpersand);
    assert_eq!(fault("a &b"), LexFault::TokenAfterAmpersand);
    assert_eq!(fault("a &"), LexFault::TokenAfterAmpersand);
}

#[test]
fn faults_after_a_dollar() {
    assert_eq!(fault("a $"), LexFault::TokenAfterDollar);
    assert_eq!(fault("a $ b"), LexFault::TokenAfterDollar);
    assert_eq!(fault("a $5"), LexFault::TokenAfterDollar);
    assert_eq!(fault("a $(b)"), LexFault::GroupInParentheses);
    assert_eq!(fault("a ${b c}"), LexFault::SecondVariable);
    assert_eq!(fault("a ${b.c}"), LexFault::ExtraTokens);
    assert_eq!(fault("a $[1]"), LexFault::ExtraTokens);
    assert_eq!(scan("a ${}").unwrap(), vec![word("a")]);
}

#[test]
fn group_outside_a_variable_is_a_fault() {
    let e = scan("echo (a)").unwrap_err();
    assert_eq!(e.fault, LexFault::Grouping);
    assert_eq!(e.message(), "grouping is only allowed for variables");
    assert_eq!(fault("{ a }"), LexFault::Grouping);
}

#[test]
fn faults_in_strings_are_reported_at_the_string() {
    let line = tokens("echo \"${a\"");
    let begin = line[0].span().start;
    let e = Lexer::default().scan(line).unwrap_err();
    assert_eq!(e.fault, LexFault::BadSubstitution);
    assert_eq!((e.span.start - begin, e.span.end - begin), (5, 10));
    assert_eq!(fault("echo \"$fn\""), LexFault::BadVariable);
}

#[test]
fn every_fault_has_its_text() {
    let texts = [
        (LexFault::Grouping, "grouping is only allowed for variables"),
        (LexFault::RedirectFormat, "wrong input redirect format"),
        (LexFault::NoCommandAfterPipe, "expect new command after '|'"),
        (LexFault::SecondOr, "only one || is allowed"),
        (LexFault::Punctuation, "invalid punctuation"),
        (LexFault::LiteralAfterAmpersand, "invalid literal string after &"),
        (LexFault::StreamNumber, "Only &1 or &2 is supported"),
        (LexFault::TokenAfterAmpersand, "invalid token after '&'"),
        (
            LexFault::GroupInParentheses,
            "invalid grouping: found \"parenthesis\", only \"brace/bracket\" is allowed",
        ),
        (
            LexFault::GroupWithoutBrackets,
            "invalid grouping: found \"none\", only \"brace/bracket\" is allowed",
        ),
        (LexFault::SecondVariable, "more than one variable in grouping"),
        (LexFault::VectorNotAlone, "vector variable can only be used alone"),
        (LexFault::ExtraTokens, "invalid grouping: extra tokens"),
        (LexFault::TokenAfterDollar, "invalid token after $"),
        (LexFault::BadSubstitution, "bad substitution"),
        (LexFault::BadVariable, "bad variable name"),
    ];
    for (fault, text) in texts {
        let e = LexError { fault, span: Span { start: 0, end: 0 } };
        assert_eq!(e.message(), text);
    }
}

#[test]
fn group_without_brackets_after_dollar() {
    let hand = vec![
        Token::Punct('$', Span { start: 0, end: 1 }),
        Token::Group(Delimiter::Invisible, vec![], Span { start: 1, end: 2 }),
    ];
    assert_eq!(Lexer::default().scan(hand).unwrap_err().fault, LexFault::GroupWithoutBrackets);
}


#[test]
fn piece_for_a_variable() {
    assert_eq!(variable_piece("name", true), Ok(var("name")));
    assert_eq!(variable_piece("fn", false), Err(LiteralError::BadVariable));
}
