//! Lexical analysis: an input line is split on runs of whitespace, and each
//! word is classified, in order, as a keyword (`Token`, `Contract`, `Abi`)
//! or, by its "0x" prefix, as an address literal. A word matching neither
//! rule fails the whole call.

use vstd::prelude::*;
use vstd::string::StrSliceExecFns;

verus! {

/// One lexical token of the console language: a keyword, or one
/// whitespace-delimited word of the input that begins with "0x".
#[derive(Debug, Clone, PartialEq, Eq)]
pub enum LexerItem {
    Address(String),
    Token,
    Contract,
    Abi,
}

/// Failure of lexical analysis: a word that is neither a keyword nor
/// "0x"-prefixed, carrying that word.
#[derive(Debug, Clone, PartialEq, Eq)]
pub enum LexError {
    UnknownToken(String),
}

/// The mathematical value of a lexical token: the same tags over a
/// character sequence instead of an owned string.
pub enum LexerItemModel {
    Address(Seq<char>),
    Token,
    Contract,
    Abi,
}

/// The model of one token.
pub open spec fn lex_model(t: LexerItem) -> LexerItemModel {
    match t {
        LexerItem::Address(a) => LexerItemModel::Address(a@),
        LexerItem::Token => LexerItemModel::Token,
        LexerItem::Contract => LexerItemModel::Contract,
        LexerItem::Abi => LexerItemModel::Abi,
    }
}

/// The models of a token sequence, in order.
pub open spec fn lex_models(ts: Seq<LexerItem>) -> Seq<LexerItemModel> {
    ts.map_values(|t: LexerItem| lex_model(t))
}

/// Whether `c` is a whitespace character: the code points with the Unicode
/// `White_Space` property, on which input lines are split into words.
pub open spec fn is_space(c: char) -> bool {
    let u = c as int;
    u == 0x20 || u == 0x09 || u == 0x0a || u == 0x0b || u == 0x0c || u == 0x0d || u == 0x85
        || u == 0xa0 || u == 0x1680 || (0x2000 <= u && u <= 0x200a) || u == 0x2028 || u == 0x2029
        || u == 0x202f || u == 0x205f || u == 0x3000
}

/// Decides `is_space`.
pub fn char_is_space(c: char) -> (r: bool)
    ensures
        r == is_space(c),
{
    let u = c as u32;
    u == 0x20 || u == 0x09 || u == 0x0a || u == 0x0b || u == 0x0c || u == 0x0d || u == 0x85
        || u == 0xa0 || u == 0x1680 || (0x2000 <= u && u <= 0x200a) || u == 0x2028 || u == 0x2029
        || u == 0x202f || u == 0x205f || u == 0x3000
}

/// The length of the maximal non-whitespace prefix of `s`.
pub open spec fn word_end(s: Seq<char>) -> int
    decreases s.len(),
{
    if s.len() == 0 || is_space(s[0]) {
        0
    } else {
        1 + word_end(s.drop_first())
    }
}

pub proof fn lemma_word_end_bounds(s: Seq<char>)
    ensures
        0 <= word_end(s) <= s.len(),
        s.len() > 0 && !is_space(s[0]) ==> 1 <= word_end(s),
        forall|k: int| 0 <= k < word_end(s) ==> !is_space(s[k]),
        word_end(s) < s.len() ==> is_space(s[word_end(s)]),
    decreases s.len(),
{
    if s.len() == 0 || is_space(s[0]) {
    } else {
        lemma_word_end_bounds(s.drop_first());
        assert forall|k: int| 0 <= k < word_end(s) implies !is_space(s[k]) by {
            if k > 0 {
                assert(s.drop_first()[k - 1] == s[k]);
                assert(!is_space(s.drop_first()[k - 1]));
            }
        }
        if word_end(s) < s.len() {
            assert(s.drop_first()[word_end(s) - 1] == s[word_end(s)]);
        }
    }
}

/// `word_end` is determined by any witness of the same scan: `k` characters
/// that are not whitespace, bounded by the end of `s` or a whitespace one.
pub proof fn lemma_word_end_is(s: Seq<char>, k: int)
    requires
        0 <= k <= s.len(),
        forall|m: int| 0 <= m < k ==> !is_space(s[m]),
        k < s.len() ==> is_space(s[k]),
    ensures
        word_end(s) == k,
    decreases s.len(),
{
    if s.len() == 0 {
    } else if is_space(s[0]) {
        assert(k == 0);
    } else {
        assert(k >= 1);
        assert forall|m: int| 0 <= m < k - 1 implies !is_space(s.drop_first()[m]) by {
            assert(s.drop_first()[m] == s[m + 1]);
        }
        if k - 1 < s.drop_first().len() {
            assert(s.drop_first()[k - 1] == s[k]);
        }
        lemma_word_end_is(s.drop_first(), k - 1);
    }
}

/// The maximal whitespace-delimited words of `s`, in left-to-right order.
pub open spec fn words_of(s: Seq<char>) -> Seq<Seq<char>>
    decreases s.len(),
    via words_of_decreases
{
    if s.len() == 0 {
        Seq::empty()
    } else if is_space(s[0]) {
        words_of(s.drop_first())
    } else {
        seq![s.subrange(0, word_end(s))] + words_of(s.subrange(word_end(s), s.len() as int))
    }
}

#[via_fn]
proof fn words_of_decreases(s: Seq<char>) {
    if s.len() > 0 && !is_space(s[0]) {
        lemma_word_end_bounds(s);
    }
}

/// Whether a word is an address literal: it begins with the two-character
/// prefix "0x". No further hex-digit or length validation is applied.
pub open spec fn is_address_text(w: Seq<char>) -> bool {
    w.len() >= 2 && w.subrange(0, 2) == "0x"@
}

/// The classification of one word: an exact case-sensitive match against
/// the three keyword literals, failing that the "0x" prefix test, failing
/// that `None` (unknown).
pub open spec fn classify(w: Seq<char>) -> Option<LexerItemModel> {
    if w == "Token"@ {
        Some(LexerItemModel::Token)
    } else if w == "Contract"@ {
        Some(LexerItemModel::Contract)
    } else if w == "Abi"@ {
        Some(LexerItemModel::Abi)
    } else if is_address_text(w) {
        Some(LexerItemModel::Address(w))
    } else {
        None
    }
}

/// The result of lexing a word sequence: the classifications of the words,
/// in order, or the first word that classifies as unknown.
pub open spec fn spec_tokenize(ws: Seq<Seq<char>>) -> Result<Seq<LexerItemModel>, Seq<char>>
    decreases ws.len(),
{
    if ws.len() == 0 {
        Ok(Seq::empty())
    } else {
        match classify(ws[0]) {
            None => Err(ws[0]),
            Some(t) => match spec_tokenize(ws.drop_first()) {
                Ok(rest) => Ok(seq![t] + rest),
                Err(e) => Err(e),
            },
        }
    }
}

/// Lexing a concatenation of word sequences: the front is lexed first, and
/// its first error, if any, decides the whole.
pub proof fn lemma_spec_tokenize_append(ws1: Seq<Seq<char>>, ws2: Seq<Seq<char>>)
    ensures
        spec_tokenize(ws1 + ws2) == (match spec_tokenize(ws1) {
            Err(e) => Err::<Seq<LexerItemModel>, Seq<char>>(e),
            Ok(t1) => match spec_tokenize(ws2) {
                Ok(t2) => Ok::<Seq<LexerItemModel>, Seq<char>>(t1 + t2),
                Err(e) => Err(e),
            },
        }),
    decreases ws1.len(),
{
    if ws1.len() == 0 {
        assert(ws1 + ws2 =~= ws2);
        match spec_tokenize(ws2) {
            Ok(t2) => {
                assert(Seq::<LexerItemModel>::empty() + t2 =~= t2);
            },
            Err(_) => {},
        }
    } else {
        assert((ws1 + ws2)[0] == ws1[0]);
        assert((ws1 + ws2).drop_first() =~= ws1.drop_first() + ws2);
        lemma_spec_tokenize_append(ws1.drop_first(), ws2);
        match classify(ws1[0]) {
            None => {},
            Some(t) => {
                match spec_tokenize(ws1.drop_first()) {
                    Err(_) => {},
                    Ok(t1rest) => {
                        match spec_tokenize(ws2) {
                            Err(_) => {},
                            Ok(t2) => {
                                assert(seq![t] + (t1rest + t2) =~= (seq![t] + t1rest) + t2);
                            },
                        }
                    },
                }
            },
        }
    }
}

/// The text a token stands for.
pub open spec fn token_text(t: LexerItemModel) -> Seq<char> {
    match t {
        LexerItemModel::Address(a) => a,
        LexerItemModel::Token => "Token"@,
        LexerItemModel::Contract => "Contract"@,
        LexerItemModel::Abi => "Abi"@,
    }
}

/// Tokenization is lossless over word content: when lexing succeeds, the
/// texts of the tokens, in order, are exactly the words lexed, so re-joining
/// the token texts with single spaces reproduces the original word sequence.
pub proof fn lemma_tokenize_lossless(ws: Seq<Seq<char>>, ts: Seq<LexerItemModel>)
    requires
        spec_tokenize(ws) == Ok::<Seq<LexerItemModel>, Seq<char>>(ts),
    ensures
        ts.map_values(|t: LexerItemModel| token_text(t)) =~= ws,
    decreases ws.len(),
{
    if ws.len() == 0 {
    } else {
        let t = classify(ws[0])->Some_0;
        assert(token_text(t) == ws[0]);
        match spec_tokenize(ws.drop_first()) {
            Err(_) => {
                assert(false);
            },
            Ok(rest) => {
                lemma_tokenize_lossless(ws.drop_first(), rest);
                assert(ts =~= seq![t] + rest);
                assert((seq![t] + rest).map_values(|x: LexerItemModel| token_text(x)) =~= seq![
                    token_text(t),
                ] + rest.map_values(|x: LexerItemModel| token_text(x)));
            },
        }
    }
}

/// Whether `w` has the shape of a word: non-empty, with no whitespace
/// character in it.
pub open spec fn is_word(w: Seq<char>) -> bool {
    w.len() > 0 && forall|k: int| 0 <= k < w.len() ==> !is_space(#[trigger] w[k])
}

/// Every word that splitting produces has the shape of a word.
pub proof fn lemma_words_of_wordlike(s: Seq<char>)
    ensures
        forall|i: int| 0 <= i < words_of(s).len() ==> is_word(#[trigger] words_of(s)[i]),
    decreases s.len(),
{
    if s.len() == 0 {
        assert(words_of(s).len() == 0);
    } else if is_space(s[0]) {
        lemma_words_of_wordlike(s.drop_first());
        assert(words_of(s) == words_of(s.drop_first()));
    } else {
        lemma_word_end_bounds(s);
        let k = word_end(s);
        let w0 = s.subrange(0, k);
        let rest = s.subrange(k, s.len() as int);
        lemma_words_of_wordlike(rest);
        assert(words_of(s) == seq![w0] + words_of(rest));
        assert(is_word(w0)) by {
            assert forall|m: int| 0 <= m < w0.len() implies !is_space(w0[m]) by {
                assert(w0[m] == s[m]);
            }
        }
        assert forall|i: int| 0 <= i < words_of(s).len() implies is_word(words_of(s)[i]) by {
            if i == 0 {
                assert(words_of(s)[0] == w0);
            } else {
                assert(words_of(s)[i] == words_of(rest)[i - 1]);
            }
        }
    }
}

/// Splitting a word followed by a whitespace-led remainder: the word comes
/// off whole, and the remainder splits on its own.
pub proof fn lemma_words_of_prepend(w: Seq<char>, s: Seq<char>)
    requires
        is_word(w),
        s.len() == 0 || is_space(s[0]),
    ensures
        words_of(w + s) =~= seq![w] + words_of(s),
{
    let t = w + s;
    assert(t[0] == w[0]);
    assert(!is_space(t[0]));
    assert forall|m: int| 0 <= m < w.len() implies !is_space(t[m]) by {
        assert(t[m] == w[m]);
    }
    if w.len() < t.len() {
        assert(t[w.len() as int] == s[0]);
    }
    lemma_word_end_is(t, w.len() as int);
    assert(t.subrange(0, w.len() as int) =~= w);
    assert(t.subrange(w.len() as int, t.len() as int) =~= s);
}

/// Joining words with single spaces and splitting again gives the words
/// back.
pub proof fn lemma_rejoin_words(ws: Seq<Seq<char>>)
    requires
        forall|i: int| 0 <= i < ws.len() ==> is_word(#[trigger] ws[i]),
    ensures
        words_of(crate::text::spec_join(ws, seq![' '])) =~= ws,
    decreases ws.len(),
{
    let sep = seq![' '];
    if ws.len() == 0 {
    } else if ws.len() == 1 {
        assert(crate::text::spec_join(ws, sep) == ws[0]);
        lemma_words_of_prepend(ws[0], Seq::empty());
        assert(ws[0] + Seq::<char>::empty() =~= ws[0]);
        assert(seq![ws[0]] + words_of(Seq::empty()) =~= ws);
    } else {
        crate::text::lemma_spec_join_front(ws, sep);
        let rest = ws.drop_first();
        assert forall|i: int| 0 <= i < rest.len() implies is_word(#[trigger] rest[i]) by {
            assert(rest[i] == ws[i + 1]);
        }
        lemma_rejoin_words(rest);
        let tail = sep + crate::text::spec_join(rest, sep);
        assert(ws[0] + sep + crate::text::spec_join(rest, sep) =~= ws[0] + tail);
        assert(tail[0] == ' ');
        assert(is_space(' '));
        lemma_words_of_prepend(ws[0], tail);
        assert(tail.drop_first() =~= crate::text::spec_join(rest, sep));
        assert(seq![ws[0]] + rest =~= ws);
    }
}

/// Tokenization is lossless over word content, lossy only over whitespace
/// run-length: when a line lexes successfully, the token texts, in order,
/// are exactly the line's whitespace-delimited words, and re-joining them
/// with single spaces yields a line with that same word sequence.
pub proof fn lemma_tokenize_round_trip(s: Seq<char>, ts: Seq<LexerItemModel>)
    requires
        spec_tokenize(words_of(s)) == Ok::<Seq<LexerItemModel>, Seq<char>>(ts),
    ensures
        ts.map_values(|t: LexerItemModel| token_text(t)) =~= words_of(s),
        words_of(
            crate::text::spec_join(ts.map_values(|t: LexerItemModel| token_text(t)), seq![' ']),
        ) =~= words_of(s),
{
    lemma_tokenize_lossless(words_of(s), ts);
    lemma_words_of_wordlike(s);
    lemma_rejoin_words(words_of(s));
}

/// Whether every address token in a sequence carries "0x"-prefixed text:
/// the invariant of token sequences the lexer produces.
pub open spec fn wf_tokens(ts: Seq<LexerItem>) -> bool {
    forall|i: int|
        0 <= i < ts.len() ==> match #[trigger] ts[i] {
            LexerItem::Address(a) => is_address_text(a@),
            _ => true,
        }
}

/// Decides whether a word begins with the address prefix "0x".
fn is_address_word(word: &str) -> (r: bool)
    ensures
        r == is_address_text(word@),
{
    proof {
        reveal_strlit("0x");
    }
    if word.unicode_len() < 2 {
        false
    } else {
        let r = word.get_char(0) == '0' && word.get_char(1) == 'x';
        proof {
            if r {
                assert(word@.subrange(0, 2) =~= "0x"@);
            } else if is_address_text(word@) {
                assert(word@[0] == word@.subrange(0, 2)[0]);
                assert(word@[1] == word@.subrange(0, 2)[1]);
            }
        }
        r
    }
}

/// Compares two string slices by character content.
fn str_eq(a: &str, b: &str) -> (r: bool)
    ensures
        r == (a@ == b@),
{
    let a_owned = a.to_owned();
    let b_owned = b.to_owned();
    a_owned == b_owned
}

/// Splits the input line on runs of whitespace and classifies each word, in
/// input order: an exact match against the keyword literals `"Token"`,
/// `"Contract"`, `"Abi"`, failing that an address literal by its "0x"
/// prefix. Any other word fails the whole call with `UnknownToken`, carrying
/// the first such word. A blank line yields the empty token sequence.
pub fn tokenize(command: &str) -> (r: Result<Vec<LexerItem>, LexError>)
    ensures
        match r {
            Ok(tokens) => spec_tokenize(words_of(command@)) == Ok::<
                Seq<LexerItemModel>,
                Seq<char>,
            >(lex_models(tokens@)) && wf_tokens(tokens@),
            Err(e) => match e {
                LexError::UnknownToken(w) => spec_tokenize(words_of(command@)) == Err::<
                    Seq<LexerItemModel>,
                    Seq<char>,
                >(w@),
            },
        },
{
    let n: usize = command.unicode_len();
    let mut tokens: Vec<LexerItem> = Vec::new();
    let mut i: usize = 0;
    let ghost mut done: Seq<Seq<char>> = Seq::empty();
    proof {
        assert(command@.subrange(0, n as int) =~= command@);
        assert(Seq::<Seq<char>>::empty() + words_of(command@) =~= words_of(command@));
        assert(lex_models(tokens@) =~= Seq::<LexerItemModel>::empty());
    }
    while i < n
        invariant
            i <= n,
            n == command@.len(),
            words_of(command@) == done + words_of(command@.subrange(i as int, n as int)),
            spec_tokenize(done) == Ok::<Seq<LexerItemModel>, Seq<char>>(lex_models(tokens@)),
            wf_tokens(tokens@),
        decreases n - i,
    {
        let c = command.get_char(i);
        if char_is_space(c) {
            proof {
                let rem = command@.subrange(i as int, n as int);
                assert(rem.drop_first() =~= command@.subrange(i as int + 1, n as int));
            }
            i = i + 1;
        } else {
            let start: usize = i;
            let mut j: usize = i + 1;
            while j < n
                invariant
                    start < j <= n,
                    n == command@.len(),
                    forall|k: int| start <= k < j ==> !is_space(command@[k]),
                ensures
                    start < j <= n,
                    forall|k: int| start <= k < j ==> !is_space(command@[k]),
                    j == n || is_space(command@[j as int]),
                decreases n - j,
            {
                if char_is_space(command.get_char(j)) {
                    break ;
                }
                j = j + 1;
            }
            let word = command.substring_char(start, j);
            let ghost w = command@.subrange(start as int, j as int);
            proof {
                let rem = command@.subrange(start as int, n as int);
                assert forall|m: int| 0 <= m < j - start implies !is_space(rem[m]) by {
                    assert(rem[m] == command@[start + m]);
                }
                if j < n {
                    assert(rem[j - start] == command@[j as int]);
                }
                lemma_word_end_is(rem, j - start);
                assert(rem.subrange(0, j - start) =~= w);
                assert(rem.subrange(j - start, rem.len() as int) =~= command@.subrange(
                    j as int,
                    n as int,
                ));
                assert(words_of(rem) == seq![w] + words_of(command@.subrange(j as int, n as int)));
            }
            let item: LexerItem;
            if str_eq(word, "Token") {
                item = LexerItem::Token;
            } else if str_eq(word, "Contract") {
                item = LexerItem::Contract;
            } else if str_eq(word, "Abi") {
                item = LexerItem::Abi;
            } else if is_address_word(word) {
                item = LexerItem::Address(word.to_owned());
            } else {
                proof {
                    assert(classify(w) is None);
                    lemma_spec_tokenize_append(
                        done,
                        seq![w] + words_of(command@.subrange(j as int, n as int)),
                    );
                    assert((seq![w] + words_of(command@.subrange(j as int, n as int)))[0] == w);
                }
                return Err(LexError::UnknownToken(word.to_owned()));
            }
            proof {
                assert(classify(w) == Some(lex_model(item)));
                lemma_spec_tokenize_append(done, seq![w]);
                assert(seq![w].drop_first() =~= Seq::<Seq<char>>::empty());
                assert(seq![w][0] == w);
                assert(spec_tokenize(Seq::<Seq<char>>::empty()) == Ok::<
                    Seq<LexerItemModel>,
                    Seq<char>,
                >(Seq::empty()));
                assert(spec_tokenize(seq![w]) == Ok::<Seq<LexerItemModel>, Seq<char>>(
                    seq![lex_model(item)] + Seq::<LexerItemModel>::empty(),
                ));
                assert(seq![lex_model(item)] + Seq::<LexerItemModel>::empty() =~= seq![
                    lex_model(item),
                ]);
                assert(lex_models(tokens@) + seq![lex_model(item)] =~= lex_models(
                    tokens@.push(item),
                ));
                assert(done + (seq![w] + words_of(command@.subrange(j as int, n as int))) =~= (done
                    + seq![w]) + words_of(command@.subrange(j as int, n as int)));
            }
            tokens.push(item);
            proof {
                done = done + seq![w];
            }
            i = j;
        }
    }
    proof {
        assert(command@.subrange(n as int, n as int) =~= Seq::<char>::empty());
        assert(done + words_of(command@.subrange(n as int, n as int)) =~= done);
    }
    Ok(tokens)
}

} // verus!
