use web3console::lexer::LexError;
use web3console::lexer::LexerItem;
use web3console::lexer::tokenize;

#[test]
fn test_tokenize() {
    assert_eq!(
        tokenize("Token 0x0000000000000000000000000000000000000000"),
        Ok(vec![
            LexerItem::Token,
            LexerItem::Address(String::from("0x0000000000000000000000000000000000000000"))
        ])
    );

    assert_eq!(
        tokenize("0x0000000000000000000000000000000000000000").unwrap(),
        vec![LexerItem::Address(String::from(
            "0x0000000000000000000000000000000000000000"
        ))]
    );

    assert_eq!(tokenize("Token").unwrap(), vec![LexerItem::Token]);
}

#[test]
#[should_panic(expected = "UnknownToken")]
fn fail_uknonw_command() {
    tokenize("x0000000000000000000000000000000000000000").unwrap();
}

#[test]
fn tokenize_each_keyword() {
    assert_eq!(
        tokenize("Token Contract Abi").unwrap(),
        vec![LexerItem::Token, LexerItem::Contract, LexerItem::Abi]
    );
}

#[test]
fn tokenize_address_literal() {
    assert_eq!(
        tokenize("Token 0xADDR").unwrap(),
        vec![
            LexerItem::Token,
            LexerItem::Address(String::from("0xADDR"))
        ]
    );
    assert_eq!(
        tokenize("0xADDR").unwrap(),
        vec![LexerItem::Address(String::from("0xADDR"))]
    );
}

#[test]
fn tokenize_unknown_word_fails_whole_call() {
    assert_eq!(
        tokenize("Foo"),
        Err(LexError::UnknownToken(String::from("Foo")))
    );
    // Lexing is all-or-nothing: the first unknown word fails the line even
    // when valid tokens surround it.
    assert_eq!(
        tokenize("Token Foo 0xADDR"),
        Err(LexError::UnknownToken(String::from("Foo")))
    );
}

#[test]
fn tokenize_blank_input_is_empty() {
    assert_eq!(tokenize("").unwrap(), vec![]);
    assert_eq!(tokenize("   \t  ").unwrap(), vec![]);
}

#[test]
fn tokenize_collapses_whitespace_runs() {
    assert_eq!(
        tokenize("  Token \t\t 0xADDR  ").unwrap(),
        vec![
            LexerItem::Token,
            LexerItem::Address(String::from("0xADDR"))
        ]
    );
}

#[test]
fn tokenize_splits_on_unicode_whitespace() {
    assert_eq!(
        tokenize("Token\u{a0}0xADDR\u{2003}Abi").unwrap(),
        vec![
            LexerItem::Token,
            LexerItem::Address(String::from("0xADDR")),
            LexerItem::Abi
        ]
    );
}

#[test]
fn tokenize_keywords_are_case_sensitive() {
    assert_eq!(
        tokenize("token"),
        Err(LexError::UnknownToken(String::from("token")))
    );
}

#[test]
fn tokenize_rejoin_reproduces_word_sequence() {
    let line = "  Token \t 0xADDR  ";
    let tokens = tokenize(line).unwrap();
    let texts: Vec<String> = tokens
        .iter()
        .map(|t| match t {
            LexerItem::Address(a) => a.clone(),
            LexerItem::Token => String::from("Token"),
            LexerItem::Contract => String::from("Contract"),
            LexerItem::Abi => String::from("Abi"),
        })
        .collect();
    let rejoined = texts.join(" ");
    assert_eq!(rejoined, "Token 0xADDR");
    // Tokenizing the re-joined line yields the same token sequence.
    assert_eq!(tokenize(&rejoined).unwrap(), tokens);
}
