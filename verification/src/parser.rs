//! Parsing of the token sequence produced by the lexer into a typed
//! command. The grammar has depth one: a command is a keyword followed by
//! one address literal. Tokens beyond the second are ignored, as the
//! interactive surface always has done; a stricter grammar is left open.

use crate::lexer::LexerItem;
use crate::lexer::LexerItemModel;
use crate::lexer::is_address_text;
use crate::lexer::lex_models;
use crate::lexer::wf_tokens;
use vstd::prelude::*;

verus! {

/// A contract address validated at the prefix level: guaranteed to begin
/// with "0x", otherwise opaque. It is a transient value scoped to one
/// input line.
#[derive(Debug, Clone, PartialEq, Eq)]
pub struct Address {
    pub address: String,
}

impl Address {
    /// Well-formedness of an address: its text begins with "0x".
    pub open spec fn wf(self) -> bool {
        is_address_text(self.address@)
    }

    pub fn new(address: String) -> (r: Address)
        requires
            is_address_text(address@),
        ensures
            r.address == address,
            r.wf(),
    {
        Address { address }
    }
}

/// A parsed command: one verb carrying exactly one address. `Contract` is
/// recognized by the grammar but carries no handler yet; the parser
/// reports it as `Unsupported` (the value stays constructible, and the
/// evaluator rejects it as well).
#[derive(Debug, Clone, PartialEq, Eq)]
pub enum Command {
    Token { address: Address },
    Abi { address: Address },
    Contract { address: Address },
}

impl Command {
    /// Well-formedness of a command: the one address it carries is
    /// well-formed.
    pub open spec fn wf(self) -> bool {
        match self {
            Command::Token { address } => address.wf(),
            Command::Abi { address } => address.wf(),
            Command::Contract { address } => address.wf(),
        }
    }
}

/// Grammatical failure: the first token is no keyword or the sequence is
/// empty (`UnknownCommand`); a keyword is not followed by an address
/// literal (`MissingAddress`); the verb is recognized but not yet
/// executable (`Unsupported`).
#[derive(Debug, Clone, PartialEq, Eq)]
pub enum ParseError {
    UnknownCommand,
    MissingAddress,
    Unsupported,
}

/// The mathematical value of a command: its verb with its address text.
pub enum CommandModel {
    Token(Seq<char>),
    Abi(Seq<char>),
    Contract(Seq<char>),
}

/// The model of a command value.
pub open spec fn command_model(c: Command) -> CommandModel {
    match c {
        Command::Token { address } => CommandModel::Token(address.address@),
        Command::Abi { address } => CommandModel::Abi(address.address@),
        Command::Contract { address } => CommandModel::Contract(address.address@),
    }
}

/// The address argument of a verb: the token right after the keyword,
/// which must be an address literal. An absent token and a keyword token
/// fail alike: the grammar never accepts a keyword as an address argument.
pub open spec fn spec_parse_address(ts: Seq<LexerItemModel>) -> Result<Seq<char>, ParseError> {
    if ts.len() == 0 {
        Err(ParseError::MissingAddress)
    } else {
        match ts[0] {
            LexerItemModel::Address(a) => Ok(a),
            _ => Err(ParseError::MissingAddress),
        }
    }
}

/// The result of parsing a token sequence: the command formed by the
/// leading keyword and its address argument, or the first grammatical
/// error.
pub open spec fn spec_parse(ts: Seq<LexerItemModel>) -> Result<CommandModel, ParseError> {
    if ts.len() == 0 {
        Err(ParseError::UnknownCommand)
    } else {
        match ts[0] {
            LexerItemModel::Token => match spec_parse_address(ts.drop_first()) {
                Ok(a) => Ok(CommandModel::Token(a)),
                Err(e) => Err(e),
            },
            LexerItemModel::Abi => match spec_parse_address(ts.drop_first()) {
                Ok(a) => Ok(CommandModel::Abi(a)),
                Err(e) => Err(e),
            },
            LexerItemModel::Contract => Err(ParseError::Unsupported),
            LexerItemModel::Address(_) => Err(ParseError::UnknownCommand),
        }
    }
}

/// Parses the token sequence into a typed command, or fails with the first
/// grammatical error. The `Contract` verb short-circuits at parse time
/// with `Unsupported` rather than deferring rejection to evaluation.
pub fn parse(tokens: &Vec<LexerItem>) -> (r: Result<Command, ParseError>)
    requires
        wf_tokens(tokens@),
    ensures
        match r {
            Ok(c) => spec_parse(lex_models(tokens@)) == Ok::<CommandModel, ParseError>(
                command_model(c),
            ) && c.wf(),
            Err(e) => spec_parse(lex_models(tokens@)) == Err::<CommandModel, ParseError>(e),
        },
{
    parse_command(tokens)
}

/// Dispatches on the leading keyword; an empty sequence or a leading
/// address literal is no command at all.
fn parse_command(tokens: &Vec<LexerItem>) -> (r: Result<Command, ParseError>)
    requires
        wf_tokens(tokens@),
    ensures
        match r {
            Ok(c) => spec_parse(lex_models(tokens@)) == Ok::<CommandModel, ParseError>(
                command_model(c),
            ) && c.wf(),
            Err(e) => spec_parse(lex_models(tokens@)) == Err::<CommandModel, ParseError>(e),
        },
{
    if tokens.len() == 0 {
        return Err(ParseError::UnknownCommand);
    }
    let r = match &tokens[0] {
        LexerItem::Token => match parse_address(tokens) {
            Ok(address) => Ok(Command::Token { address }),
            Err(e) => Err(e),
        },
        LexerItem::Abi => match parse_address(tokens) {
            Ok(address) => Ok(Command::Abi { address }),
            Err(e) => Err(e),
        },
        LexerItem::Contract => Err(ParseError::Unsupported),
        LexerItem::Address(_) => Err(ParseError::UnknownCommand),
    };
    proof {
        assert(lex_models(tokens@).drop_first() =~= lex_models(tokens@.drop_first()));
    }
    r
}

/// Reads the address argument: the token after the keyword.
fn parse_address(tokens: &Vec<LexerItem>) -> (r: Result<Address, ParseError>)
    requires
        wf_tokens(tokens@),
        tokens@.len() >= 1,
    ensures
        match r {
            Ok(a) => spec_parse_address(lex_models(tokens@.drop_first())) == Ok::<
                Seq<char>,
                ParseError,
            >(a.address@) && a.wf(),
            Err(e) => spec_parse_address(lex_models(tokens@.drop_first())) == Err::<
                Seq<char>,
                ParseError,
            >(e),
        },
{
    if tokens.len() < 2 {
        proof {
            assert(lex_models(tokens@.drop_first()).len() == 0);
        }
        return Err(ParseError::MissingAddress);
    }
    match &tokens[1] {
        LexerItem::Address(a) => {
            let text = a.clone();
            proof {
                assert(lex_models(tokens@.drop_first())[0] == crate::lexer::lex_model(
                    tokens@[1],
                ));
            }
            Ok(Address { address: text })
        },
        _ => {
            proof {
                assert(lex_models(tokens@.drop_first())[0] == crate::lexer::lex_model(
                    tokens@[1],
                ));
            }
            Err(ParseError::MissingAddress)
        },
    }
}

} // verus!
