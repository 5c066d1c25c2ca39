//! Evaluation of a parsed command over what the network collaborators
//! returned for it. The collaborators themselves — the metadata resolver
//! and the RPC method invoker — are external: the driver invokes them and
//! hands their response in as a plain value, and everything from that
//! value to the printed report is computed here.

use crate::parser::Address;
use crate::parser::Command;
use crate::text::dec_str;
use crate::text::format_indented;
use crate::text::join_strings;
use crate::text::spec_indented;
use crate::text::spec_join;
use crate::text::string_views;
use crate::text::u8_to_string;
use vstd::prelude::*;
use vstd::string::StringExecFns;

verus! {

/// The metadata of a token contract, as the three read-only methods
/// `name`, `symbol` and `decimals` report it.
#[derive(Debug, Clone, PartialEq, Eq)]
pub struct TokenMetadata {
    pub name: String,
    pub symbol: String,
    pub decimals: u8,
}

/// One function of a contract interface: its name and the type names of
/// its parameters. Overloads appear as separate entries.
#[derive(Debug, Clone, PartialEq, Eq)]
pub struct AbiFunction {
    pub name: String,
    pub param_types: Vec<String>,
}

/// A contract's interface description as the metadata resolver reports
/// it: its functions and its event names, each list in the resolver's own
/// enumeration order.
#[derive(Debug, Clone, PartialEq, Eq)]
pub struct AbiInfo {
    pub functions: Vec<AbiFunction>,
    pub events: Vec<String>,
}

/// What the collaborators returned for one command evaluation: the data
/// the verb needs, or the first failure — transport, decode or call —
/// with its cause kept for diagnostics.
#[derive(Debug, Clone, PartialEq, Eq)]
pub enum FetchOutcome {
    TokenData(TokenMetadata),
    AbiData(AbiInfo),
    Failed(String),
}

/// Evaluation failure: any collaborator failure is coalesced into
/// `FetchFailed`, carrying the underlying cause; a verb the grammar knows
/// but no handler serves is `UnsupportedCommand`.
#[derive(Debug, Clone, PartialEq, Eq)]
pub enum EvalError {
    FetchFailed(String),
    UnsupportedCommand,
}

/// The signature of a function: its name, then its parameter types in
/// parentheses, comma-separated.
pub open spec fn spec_signature(name: Seq<char>, params: Seq<Seq<char>>) -> Seq<char> {
    name + "("@ + spec_join(params, ","@) + ")"@
}

/// Renders the signature of one interface function.
pub fn function_signature(f: &AbiFunction) -> (r: String)
    ensures
        r@ == spec_signature(f.name@, string_views(f.param_types@)),
{
    let mut r = f.name.clone();
    r.append("(");
    let joined = join_strings(&f.param_types, ",");
    r.append(joined.as_str());
    r.append(")");
    proof {
        assert(r@ =~= spec_signature(f.name@, string_views(f.param_types@)));
    }
    r
}

/// The report of a `Token` command: name, symbol, address and decimals,
/// with stable labels, one entry per line.
pub open spec fn token_report(
    addr: Seq<char>,
    name: Seq<char>,
    symbol: Seq<char>,
    decimals: u8,
) -> Seq<char> {
    "Name: "@ + name + "\tSymbol: "@ + symbol + "\n  Address: "@ + addr + "\n  Decimals: "@
        + dec_str(decimals as int) + "\n"@
}

/// Formats the result of a `Token` command from the fetched metadata, in
/// the fixed template of the report.
pub fn eval_token(address: &Address, meta: &TokenMetadata) -> (r: String)
    ensures
        r@ == token_report(address.address@, meta.name@, meta.symbol@, meta.decimals),
{
    let mut r = String::from_str("Name: ");
    r.append(meta.name.as_str());
    r.append("\tSymbol: ");
    r.append(meta.symbol.as_str());
    r.append("\n  Address: ");
    r.append(address.address.as_str());
    r.append("\n  Decimals: ");
    let d = u8_to_string(meta.decimals);
    r.append(d.as_str());
    r.append("\n");
    proof {
        assert(r@ =~= token_report(address.address@, meta.name@, meta.symbol@, meta.decimals));
    }
    r
}

/// The signature texts of the functions of an interface, in order.
pub open spec fn signature_views(fs: Seq<AbiFunction>) -> Seq<Seq<char>> {
    fs.map_values(|f: AbiFunction| spec_signature(f.name@, string_views(f.param_types@)))
}

/// The report of an `Abi` command: the function signatures, then the
/// event names, as two labeled indented lists in fixed order.
pub open spec fn abi_report(functions: Seq<Seq<char>>, events: Seq<Seq<char>>) -> Seq<char> {
    "\nFunctions:\n"@ + spec_indented(functions, 2) + "\n\nEvents:\n"@ + spec_indented(events, 2)
}

/// Formats the result of an `Abi` command from the resolved interface:
/// the functions section first, then the events, preserving the
/// description's own enumeration order.
pub fn eval_abi(info: &AbiInfo) -> (r: String)
    ensures
        r@ == abi_report(signature_views(info.functions@), string_views(info.events@)),
{
    let mut sigs: Vec<String> = Vec::new();
    let mut i: usize = 0;
    proof {
        assert(string_views(sigs@) =~= signature_views(info.functions@.take(0)));
    }
    while i < info.functions.len()
        invariant
            i <= info.functions@.len(),
            sigs@.len() == i,
            string_views(sigs@) == signature_views(info.functions@.take(i as int)),
        decreases info.functions@.len() - i,
    {
        let f = &info.functions[i];
        let s = function_signature(f);
        let ghost pre = sigs@;
        sigs.push(s);
        proof {
            let ghost prev = signature_views(info.functions@.take(i as int));
            let ghost now = signature_views(info.functions@.take(i as int + 1));
            assert(now.len() == i + 1);
            assert(sigs@ == pre.push(s));
            assert forall|k: int| 0 <= k < i + 1 implies string_views(sigs@)[k] == now[k] by {
                assert(info.functions@.take(i as int + 1)[k] == info.functions@[k]);
                assert(string_views(sigs@)[k] == sigs@[k]@);
                if k < i {
                    assert(sigs@[k] == pre[k]);
                    assert(string_views(pre)[k] == pre[k]@);
                    assert(string_views(pre)[k] == prev[k]);
                    assert(info.functions@.take(i as int)[k] == info.functions@[k]);
                } else {
                    assert(sigs@[k] == s);
                }
            }
            assert(string_views(sigs@) =~= now);
        }
        i = i + 1;
    }
    proof {
        assert(info.functions@.take(info.functions@.len() as int) =~= info.functions@);
    }
    let mut r = String::from_str("\nFunctions:\n");
    let fsec = format_indented(&sigs, 2);
    r.append(fsec.as_str());
    r.append("\n\nEvents:\n");
    let esec = format_indented(&info.events, 2);
    r.append(esec.as_str());
    proof {
        assert(r@ =~= abi_report(signature_views(info.functions@), string_views(info.events@)));
    }
    r
}

/// Whether a collaborator response can belong to the command's verb: a
/// `Token` command is never answered with an interface description, an
/// `Abi` command never with token metadata. The driver constructs the
/// response for the verb in hand, so this always holds there.
pub open spec fn outcome_fits(c: Command, f: FetchOutcome) -> bool {
    match c {
        Command::Token { .. } => !(f is AbiData),
        Command::Abi { .. } => !(f is TokenData),
        Command::Contract { .. } => true,
    }
}

/// Exactly what `evaluate` returns for a command and the collaborator
/// response to it.
pub open spec fn eval_post(c: Command, f: FetchOutcome, r: Result<String, EvalError>) -> bool {
    match c {
        Command::Contract { .. } => r == Err::<String, EvalError>(EvalError::UnsupportedCommand),
        Command::Token { address } => match f {
            FetchOutcome::TokenData(meta) => r is Ok && r->Ok_0@ == token_report(
                address.address@,
                meta.name@,
                meta.symbol@,
                meta.decimals,
            ),
            FetchOutcome::Failed(cause) => r == Err::<String, EvalError>(
                EvalError::FetchFailed(cause),
            ),
            FetchOutcome::AbiData(_) => true,
        },
        Command::Abi { address } => match f {
            FetchOutcome::AbiData(info) => r is Ok && r->Ok_0@ == abi_report(
                signature_views(info.functions@),
                string_views(info.events@),
            ),
            FetchOutcome::Failed(cause) => r == Err::<String, EvalError>(
                EvalError::FetchFailed(cause),
            ),
            FetchOutcome::TokenData(_) => true,
        },
    }
}

/// Dispatches a parsed command over the collaborator response: a `Token`
/// command reports the token metadata, an `Abi` command the interface
/// listing, and either one turns a collaborator failure into
/// `FetchFailed` with its cause, producing no partial output. A
/// `Contract` command fails with `UnsupportedCommand` before any
/// collaborator response is consulted.
pub fn evaluate(command: &Command, fetched: &FetchOutcome) -> (r: Result<String, EvalError>)
    requires
        outcome_fits(*command, *fetched),
    ensures
        eval_post(*command, *fetched, r),
{
    match command {
        Command::Contract { .. } => Err(EvalError::UnsupportedCommand),
        Command::Token { address } => match fetched {
            FetchOutcome::TokenData(meta) => Ok(eval_token(address, meta)),
            FetchOutcome::Failed(cause) => Err(EvalError::FetchFailed(cause.clone())),
            FetchOutcome::AbiData(_) => vstd::pervasive::unreached(),
        },
        Command::Abi { .. } => match fetched {
            FetchOutcome::AbiData(info) => Ok(eval_abi(info)),
            FetchOutcome::Failed(cause) => Err(EvalError::FetchFailed(cause.clone())),
            FetchOutcome::TokenData(_) => vstd::pervasive::unreached(),
        },
    }
}

/// Re-evaluating the identical command against an unchanged collaborator
/// response yields byte-identical output: any two results the contract of
/// `evaluate` admits for the same command and response carry the same
/// text, or the same error.
pub proof fn lemma_evaluate_deterministic(
    command: Command,
    fetched: FetchOutcome,
    r1: Result<String, EvalError>,
    r2: Result<String, EvalError>,
)
    requires
        outcome_fits(command, fetched),
        eval_post(command, fetched, r1),
        eval_post(command, fetched, r2),
    ensures
        r1 is Ok <==> r2 is Ok,
        r1 is Ok ==> r1->Ok_0@ == r2->Ok_0@,
        r1 is Err ==> r1->Err_0 == r2->Err_0,
{
}

} // verus!
