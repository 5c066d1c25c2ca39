use web3console::eval::AbiFunction;
use web3console::eval::AbiInfo;
use web3console::eval::EvalError;
use web3console::eval::FetchOutcome;
use web3console::eval::TokenMetadata;
use web3console::eval::evaluate;
use web3console::parser::Address;
use web3console::parser::Command;

fn sample_address() -> Address {
    Address::new(String::from("0xbb4cdb9cbd36b01bd1cbaebf2de08d9173bc095c"))
}

fn sample_metadata() -> TokenMetadata {
    TokenMetadata {
        name: String::from("Wrapped BNB"),
        symbol: String::from("WBNB"),
        decimals: 18,
    }
}

fn sample_abi() -> AbiInfo {
    AbiInfo {
        functions: vec![
            AbiFunction {
                name: String::from("transfer"),
                param_types: vec![String::from("address"), String::from("uint256")],
            },
            AbiFunction {
                name: String::from("balanceOf"),
                param_types: vec![String::from("address")],
            },
        ],
        events: vec![String::from("Transfer")],
    }
}

#[test]
fn evaluate_token_formats_all_fields() {
    let command = Command::Token {
        address: sample_address(),
    };
    let out = evaluate(&command, &FetchOutcome::TokenData(sample_metadata())).unwrap();
    assert_eq!(
        out,
        "Name: Wrapped BNB\tSymbol: WBNB\n  \
         Address: 0xbb4cdb9cbd36b01bd1cbaebf2de08d9173bc095c\n  Decimals: 18\n"
    );
}

#[test]
fn evaluate_token_decimals_edges() {
    let command = Command::Token {
        address: Address::new(String::from("0xA")),
    };
    let zero = TokenMetadata {
        name: String::from("Zero"),
        symbol: String::from("Z"),
        decimals: 0,
    };
    let out = evaluate(&command, &FetchOutcome::TokenData(zero)).unwrap();
    assert_eq!(out, "Name: Zero\tSymbol: Z\n  Address: 0xA\n  Decimals: 0\n");

    let max = TokenMetadata {
        name: String::from("Max"),
        symbol: String::from("M"),
        decimals: 255,
    };
    let out = evaluate(&command, &FetchOutcome::TokenData(max)).unwrap();
    assert_eq!(out, "Name: Max\tSymbol: M\n  Address: 0xA\n  Decimals: 255\n");
}

#[test]
fn evaluate_token_fetch_failure_has_no_partial_output() {
    let command = Command::Token {
        address: sample_address(),
    };
    let out = evaluate(&command, &FetchOutcome::Failed(String::from("no ABI published")));
    assert_eq!(
        out,
        Err(EvalError::FetchFailed(String::from("no ABI published")))
    );
}

#[test]
fn evaluate_abi_lists_functions_then_events() {
    let command = Command::Abi {
        address: sample_address(),
    };
    let out = evaluate(&command, &FetchOutcome::AbiData(sample_abi())).unwrap();
    assert_eq!(
        out,
        "\nFunctions:\n  transfer(address,uint256)\n  balanceOf(address)\n\nEvents:\n  Transfer"
    );
}

#[test]
fn evaluate_abi_with_empty_lists() {
    let command = Command::Abi {
        address: sample_address(),
    };
    let empty = AbiInfo {
        functions: vec![],
        events: vec![],
    };
    let out = evaluate(&command, &FetchOutcome::AbiData(empty)).unwrap();
    assert_eq!(out, "\nFunctions:\n  \n\nEvents:\n  ");
}

#[test]
fn evaluate_abi_fetch_failure() {
    let command = Command::Abi {
        address: sample_address(),
    };
    let out = evaluate(&command, &FetchOutcome::Failed(String::from("timeout")));
    assert_eq!(out, Err(EvalError::FetchFailed(String::from("timeout"))));
}

#[test]
fn evaluate_contract_is_unsupported() {
    let command = Command::Contract {
        address: sample_address(),
    };
    let out = evaluate(&command, &FetchOutcome::Failed(String::from("unused")));
    assert_eq!(out, Err(EvalError::UnsupportedCommand));
}

#[test]
fn evaluate_twice_is_byte_identical() {
    let command = Command::Abi {
        address: sample_address(),
    };
    let first = evaluate(&command, &FetchOutcome::AbiData(sample_abi())).unwrap();
    let second = evaluate(&command, &FetchOutcome::AbiData(sample_abi())).unwrap();
    assert_eq!(first.as_bytes(), second.as_bytes());

    let command = Command::Token {
        address: sample_address(),
    };
    let first = evaluate(&command, &FetchOutcome::TokenData(sample_metadata())).unwrap();
    let second = evaluate(&command, &FetchOutcome::TokenData(sample_metadata())).unwrap();
    assert_eq!(first.as_bytes(), second.as_bytes());
}

#[test]
fn pipeline_end_to_end() {
    let tokens = web3console::lexer::tokenize("Token 0xbb4cdb9cbd36b01bd1cbaebf2de08d9173bc095c")
        .unwrap();
    let command = web3console::parser::parse(&tokens).unwrap();
    assert_eq!(
        command,
        Command::Token {
            address: sample_address()
        }
    );
    let out = evaluate(&command, &FetchOutcome::TokenData(sample_metadata())).unwrap();
    assert!(out.contains("Wrapped BNB"));
    assert!(out.contains("WBNB"));
    assert!(out.contains("0xbb4cdb9cbd36b01bd1cbaebf2de08d9173bc095c"));
    assert!(out.contains("18"));
}
