use schema_lang::{lex_text, Keyword, LexError, LexFault, StrayChar, Token};

fn tokens_of(text: &str) -> Vec<Token> {
    lex_text(text).unwrap().tokens
}

fn word(s: &str) -> Token {
    Token::Word(s.to_string())
}

#[test]
fn lexes_a_type_alias_with_a_range() {
    assert_eq!(
        tokens_of("type AdultAge int(18..70)"),
        vec![
            Token::Keyword(Keyword::Type),
            word("AdultAge"),
            word("int"),
            Token::OpenParen,
            Token::Number(18),
            Token::RangeDecl,
            Token::Number(70),
            Token::CloseParen,
        ]
    );
}

#[test]
fn empty_text_has_no_tokens() {
    let lexed = lex_text("").unwrap();
    assert_eq!(lexed.tokens, vec![]);
    assert_eq!(lexed.strays, vec![]);
}

#[test]
fn white_space_alone_has_no_tokens() {
    assert_eq!(tokens_of(" \t\r\n\x0C "), vec![]);
}

#[test]
fn single_character_symbols() {
    assert_eq!(
        tokens_of("+{}()="),
        vec![
            Token::PrimaryKey,
            Token::OpenBrace,
            Token::CloseBrace,
            Token::OpenParen,
            Token::CloseParen,
            Token::Eq,
        ]
    );
}

#[test]
fn two_character_symbols() {
    assert_eq!(tokens_of(".. -> .."), vec![Token::RangeDecl, Token::RatioDecl, Token::RangeDecl]);
}

#[test]
fn keywords_are_recognised_exactly() {
    assert_eq!(
        tokens_of("table type Table types tabl "),
        vec![
            Token::Keyword(Keyword::Table),
            Token::Keyword(Keyword::Type),
            word("Table"),
            word("types"),
            word("tabl"),
        ]
    );
}

#[test]
fn words_keep_every_character() {
    assert_eq!(tokens_of("a bc GUIDv4 x1y2z3 "), vec![
        word("a"),
        word("bc"),
        word("GUIDv4"),
        word("x1y2z3"),
    ]);
}

#[test]
fn numbers_are_decimal() {
    assert_eq!(
        tokens_of("0 7 42 007 4294967295 "),
        vec![
            Token::Number(0),
            Token::Number(7),
            Token::Number(42),
            Token::Number(7),
            Token::Number(4294967295),
        ]
    );
}

#[test]
fn a_number_above_u32_is_an_error_at_its_first_digit() {
    assert_eq!(
        lex_text("ab 4294967296 "),
        Err(LexError { fault: LexFault::NumberOverflow, position: 3 })
    );
    assert_eq!(
        lex_text("99999999999999999999999999999999)"),
        Err(LexError { fault: LexFault::NumberOverflow, position: 0 })
    );
}

#[test]
fn leading_zeros_do_not_overflow() {
    assert_eq!(tokens_of("00000000000000000000001 "), vec![Token::Number(1)]);
}

#[test]
fn a_dot_after_a_minus_is_an_error() {
    assert_eq!(
        lex_text("a -. b"),
        Err(LexError { fault: LexFault::InvalidSymbolGroup, position: 3 })
    );
    assert_eq!(
        lex_text("- x ."),
        Err(LexError { fault: LexFault::InvalidSymbolGroup, position: 4 })
    );
}

#[test]
fn stray_characters_are_reported_and_ignored() {
    let lexed = lex_text("a ! b ; é\n").unwrap();
    assert_eq!(lexed.tokens, vec![word("a"), word("b")]);
    assert_eq!(
        lexed.strays,
        vec![
            StrayChar { character: '!', position: 2 },
            StrayChar { character: ';', position: 6 },
            StrayChar { character: 'é', position: 8 },
        ]
    );
}

#[test]
fn a_second_minus_and_a_lone_greater_are_strays() {
    let lexed = lex_text("> - - >").unwrap();
    assert_eq!(lexed.tokens, vec![Token::RatioDecl]);
    assert_eq!(
        lexed.strays,
        vec![StrayChar { character: '>', position: 0 }, StrayChar { character: '-', position: 4 }]
    );
}

#[test]
fn a_pending_dot_waits_across_other_tokens() {
    assert_eq!(tokens_of("1 . a . "), vec![Token::Number(1), word("a"), Token::RangeDecl]);
}

#[test]
fn a_token_that_runs_to_the_end_is_not_emitted() {
    assert_eq!(tokens_of("type A int"), vec![Token::Keyword(Keyword::Type), word("A")]);
    assert_eq!(tokens_of("12"), vec![]);
    assert_eq!(tokens_of("type A int\n"), vec![
        Token::Keyword(Keyword::Type),
        word("A"),
        word("int"),
    ]);
}

#[test]
fn digits_inside_a_word_belong_to_the_word() {
    assert_eq!(tokens_of("a12 "), vec![word("a12")]);
}

#[test]
fn a_number_before_a_word_is_emitted_after_it() {
    assert_eq!(tokens_of("12abc  "), vec![word("abc"), Token::Number(12)]);
    assert_eq!(tokens_of("12abc 34 "), vec![word("abc"), Token::Number(1234)]);
}

#[test]
fn a_comment_has_no_tokens() {
    assert_eq!(tokens_of("# type A int (1..2) -> + { }\n"), vec![]);
    assert_eq!(tokens_of("# never closed"), vec![]);
}

#[test]
fn a_comment_does_not_disturb_the_next_line() {
    assert_eq!(
        tokens_of("type A int # the age -. 99999999999999\ntable B {\n"),
        vec![
            Token::Keyword(Keyword::Type),
            word("A"),
            word("int"),
            Token::Keyword(Keyword::Table),
            word("B"),
            Token::OpenBrace,
        ]
    );
}

#[test]
fn a_comment_body_does_not_change_the_tokens() {
    let with_body = lex_text("a 12#one two 3 ! -> ..\nb - #x\n> 7 ").unwrap();
    let without = lex_text("a 12#\nb - #\n> 7 ").unwrap();
    assert_eq!(with_body.tokens, without.tokens);
    assert_eq!(
        with_body.tokens,
        vec![word("a"), Token::Number(12), word("b"), Token::RatioDecl, Token::Number(7)]
    );
    assert_eq!(with_body.strays, vec![]);
}

#[test]
fn a_hash_ends_a_word() {
    assert_eq!(tokens_of("abc#def\nghi "), vec![word("abc"), word("ghi")]);
}

#[test]
fn an_overflow_is_found_inside_a_comment_too() {
    assert_eq!(
        lex_text("x9 99999999999x# c\n"),
        Err(LexError { fault: LexFault::NumberOverflow, position: 3 })
    );
}

#[test]
fn lexing_twice_gives_the_same_tokens() {
    let text = "table Parent { +id = GUIDv4 } Parent -> (10) ? \n";
    let first = lex_text(text);
    let second = lex_text(text);
    assert_eq!(first, second);
    let copy = text.to_string();
    assert_eq!(lex_text(&copy), first);
}

#[test]
fn positions_count_characters_not_bytes() {
    let lexed = lex_text("é ü !").unwrap();
    assert_eq!(
        lexed.strays,
        vec![
            StrayChar { character: 'é', position: 0 },
            StrayChar { character: 'ü', position: 2 },
            StrayChar { character: '!', position: 4 },
        ]
    );
}

#[test]
fn letters_outside_ascii_are_no_word_characters() {
    let lexed = lex_text("naïve ").unwrap();
    assert_eq!(lexed.tokens, vec![word("na"), word("ve")]);
    assert_eq!(lexed.strays, vec![StrayChar { character: 'ï', position: 2 }]);
}
