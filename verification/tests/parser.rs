use web3console::lexer::LexerItem;
use web3console::parser::Address;
use web3console::parser::Command;
use web3console::parser::ParseError;
use web3console::parser::parse;

#[test]
fn test_parse() {
    assert_eq!(
        parse(&vec![
            LexerItem::Token,
            LexerItem::Address(String::from("0x0000000000000000000000000000000000000000")),
        ]),
        Ok(Command::Token {
            address: Address::new(String::from("0x0000000000000000000000000000000000000000"))
        })
    );
}

#[test]
#[should_panic(expected = "MissingAddress")]
fn fail_missing_address() {
    parse(&vec![LexerItem::Token]).unwrap();
}

#[test]
#[should_panic(expected = "UnknownCommand")]
fn fail_unknown_command() {
    parse(&vec![LexerItem::Address(String::from(
        "0x0000000000000000000000000000000000000000",
    ))])
    .unwrap();
}

#[test]
fn parse_abi_command() {
    assert_eq!(
        parse(&vec![
            LexerItem::Abi,
            LexerItem::Address(String::from("0xADDR")),
        ]),
        Ok(Command::Abi {
            address: Address::new(String::from("0xADDR"))
        })
    );
}

#[test]
fn parse_empty_fails_unknown_command() {
    assert_eq!(parse(&vec![]), Err(ParseError::UnknownCommand));
}

#[test]
fn parse_keyword_is_no_address() {
    // The grammar never accepts a keyword as an address argument.
    assert_eq!(
        parse(&vec![LexerItem::Token, LexerItem::Abi]),
        Err(ParseError::MissingAddress)
    );
}

#[test]
fn parse_contract_is_unsupported() {
    assert_eq!(
        parse(&vec![
            LexerItem::Contract,
            LexerItem::Address(String::from("0xADDR")),
        ]),
        Err(ParseError::Unsupported)
    );
}

#[test]
fn parse_ignores_trailing_tokens() {
    assert_eq!(
        parse(&vec![
            LexerItem::Token,
            LexerItem::Address(String::from("0xADDR")),
            LexerItem::Address(String::from("0xLATER")),
        ]),
        Ok(Command::Token {
            address: Address::new(String::from("0xADDR"))
        })
    );
}
