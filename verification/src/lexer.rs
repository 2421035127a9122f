//! The lexer: a single left-to-right scan of the source text that emits
//! identifier, integer-literal and punctuation tokens, classifies the
//! keywords `let` and `fn`, silently discards every other character, and
//! ends the sequence with exactly one end-of-input token.

use vstd::prelude::*;
use vstd::string::StrSliceExecFns;
use crate::text::{is_alpha, is_digit, is_ident_char, alpha_char, digit_char, ident_char, str_eq};
use crate::token::{Token, TokV, tok_view, toks_view};

verus! {

/// The punctuation token a character stands for, if any.
pub open spec fn punct_tok(c: char) -> Option<TokV> {
    if c == ':' {
        Some(TokV::Colon)
    } else if c == ',' {
        Some(TokV::Comma)
    } else if c == '=' {
        Some(TokV::Equal)
    } else if c == ';' {
        Some(TokV::SemiColon)
    } else if c == '(' {
        Some(TokV::LeftParen)
    } else if c == ')' {
        Some(TokV::RightParen)
    } else if c == '{' {
        Some(TokV::LeftBrace)
    } else if c == '}' {
        Some(TokV::RightBrace)
    } else {
        None
    }
}

/// Characters that begin a token; all others are discarded by the scan.
pub open spec fn starts_token(c: char) -> bool {
    is_alpha(c) || is_digit(c) || punct_tok(c) is Some
}

/// Length of the run of characters satisfying `p` that starts at `i`.
pub open spec fn run_len(s: Seq<char>, i: int, p: spec_fn(char) -> bool) -> nat
    decreases s.len() - i,
{
    if 0 <= i < s.len() && p(s[i]) {
        (1 + run_len(s, i + 1, p)) as nat
    } else {
        0
    }
}

/// Where the identifier that starts at `i` ends: the first position after
/// `i` holding no further identifier character. The bound on `s.len()` can
/// never bite (`lemma_run_len` shows the run stays inside the text); it
/// only keeps the scan visibly well-founded.
pub open spec fn word_end(s: Seq<char>, i: int) -> int {
    let j = i + 1 + run_len(s, i + 1, |c: char| is_ident_char(c));
    if j <= s.len() {
        j
    } else {
        s.len() as int
    }
}

/// Where the integer literal that starts at `i` ends.
pub open spec fn number_end(s: Seq<char>, i: int) -> int {
    let j = i + 1 + run_len(s, i + 1, |c: char| is_digit(c));
    if j <= s.len() {
        j
    } else {
        s.len() as int
    }
}

/// Keyword classification of identifier text.
pub open spec fn word_tok(w: Seq<char>) -> TokV {
    if w == "let"@ {
        TokV::Let
    } else if w == "fn"@ {
        TokV::Fn
    } else {
        TokV::Name(w)
    }
}

/// The tokens emitted by scanning `s` from position `i` to the end,
/// not counting the final end-of-input marker.
pub open spec fn scan(s: Seq<char>, i: int) -> Seq<TokV>
    decreases s.len() - i,
{
    if !(0 <= i < s.len()) {
        Seq::empty()
    } else if is_alpha(s[i]) {
        seq![word_tok(s.subrange(i, word_end(s, i)))] + scan(s, word_end(s, i))
    } else if is_digit(s[i]) {
        seq![TokV::Int(s.subrange(i, number_end(s, i)))] + scan(s, number_end(s, i))
    } else {
        match punct_tok(s[i]) {
            Some(tk) => seq![tk] + scan(s, i + 1),
            None => scan(s, i + 1),
        }
    }
}

/// What lexing source text yields: the scanned tokens followed by the
/// end-of-input marker.
pub open spec fn lex_spec(s: Seq<char>) -> Seq<TokV> {
    scan(s, 0).push(TokV::EndOfFile)
}

/// A run reaches to the end of the text or stops just before a character
/// outside its class, and every character inside it is in the class.
pub proof fn lemma_run_len(s: Seq<char>, i: int, p: spec_fn(char) -> bool)
    requires
        0 <= i <= s.len(),
    ensures
        i + run_len(s, i, p) <= s.len(),
        forall|k: int| i <= k < i + run_len(s, i, p) ==> p(#[trigger] s[k]),
        i + run_len(s, i, p) == s.len() || !p(s[i + run_len(s, i, p)]),
    decreases s.len() - i,
{
    if i < s.len() && p(s[i]) {
        lemma_run_len(s, i + 1, p);
    }
}

/// A stretch of characters in the class, ended by the end of the text or
/// by a character outside the class, is exactly the run.
pub proof fn lemma_run_len_unique(s: Seq<char>, i: int, j: int, p: spec_fn(char) -> bool)
    requires
        0 <= i <= j <= s.len(),
        forall|k: int| i <= k < j ==> p(#[trigger] s[k]),
        j == s.len() || !p(s[j]),
    ensures
        run_len(s, i, p) == j - i,
    decreases j - i,
{
    if i < j {
        lemma_run_len_unique(s, i + 1, j, p);
    }
}

proof fn lemma_scan_no_eof(s: Seq<char>, i: int)
    ensures
        forall|k: int| 0 <= k < scan(s, i).len() ==> scan(s, i)[k] != TokV::EndOfFile,
    decreases s.len() - i,
{
    if !(0 <= i < s.len()) {
    } else if is_alpha(s[i]) {
        lemma_scan_no_eof(s, word_end(s, i));
    } else if is_digit(s[i]) {
        lemma_scan_no_eof(s, number_end(s, i));
    } else {
        lemma_scan_no_eof(s, i + 1);
    }
}

/// The end-of-input marker is always exactly the last element of a lexed
/// sequence, whatever the input text.
pub proof fn lemma_lex_ends_with_eof(s: Seq<char>)
    ensures
        lex_spec(s).len() >= 1,
        lex_spec(s).last() == TokV::EndOfFile,
        forall|k: int| 0 <= k < lex_spec(s).len() - 1 ==> lex_spec(s)[k] != TokV::EndOfFile,
{
    lemma_scan_no_eof(s, 0);
}

proof fn lemma_scan_unrecognized(s: Seq<char>, i: int)
    requires
        0 <= i,
        forall|k: int| 0 <= k < s.len() ==> !starts_token(#[trigger] s[k]),
    ensures
        scan(s, i) == Seq::<TokV>::empty(),
    decreases s.len() - i,
{
    if 0 <= i < s.len() {
        lemma_scan_unrecognized(s, i + 1);
    }
}

/// Whitespace and unrecognized characters contribute zero tokens: text
/// made only of characters that begin no token lexes to the end-of-input
/// marker alone.
pub proof fn lemma_unrecognized_contributes_nothing(s: Seq<char>)
    requires
        forall|k: int| 0 <= k < s.len() ==> !starts_token(#[trigger] s[k]),
    ensures
        lex_spec(s) =~= seq![TokV::EndOfFile],
{
    lemma_scan_unrecognized(s, 0);
}

/// Greedy longest match: an identifier token covers the whole maximal run
/// of identifier characters that starts at an alphabetic character, and
/// the scan resumes only after that run.
pub proof fn lemma_greedy_word(s: Seq<char>, i: int)
    requires
        0 <= i < s.len(),
        is_alpha(s[i]),
    ensures
        i < word_end(s, i) <= s.len(),
        forall|k: int| i < k < word_end(s, i) ==> is_ident_char(#[trigger] s[k]),
        word_end(s, i) == s.len() || !is_ident_char(s[word_end(s, i)]),
        scan(s, i) == seq![word_tok(s.subrange(i, word_end(s, i)))] + scan(s, word_end(s, i)),
{
    lemma_run_len(s, i + 1, |c: char| is_ident_char(c));
}

/// Greedy longest match for integer literals: the token covers the whole
/// maximal run of digits.
pub proof fn lemma_greedy_number(s: Seq<char>, i: int)
    requires
        0 <= i < s.len(),
        is_digit(s[i]),
        !is_alpha(s[i]),
    ensures
        i < number_end(s, i) <= s.len(),
        forall|k: int| i < k < number_end(s, i) ==> is_digit(#[trigger] s[k]),
        number_end(s, i) == s.len() || !is_digit(s[number_end(s, i)]),
        scan(s, i) == seq![TokV::Int(s.subrange(i, number_end(s, i)))] + scan(s, number_end(s, i)),
{
    lemma_run_len(s, i + 1, |c: char| is_digit(c));
}

/// Identifier classification depends on the identifier's text alone:
/// wherever two identifier runs read the same text, the scan emits the
/// same token, whatever surrounds the runs.
pub proof fn lemma_classification_by_text(s1: Seq<char>, i1: int, s2: Seq<char>, i2: int)
    requires
        0 <= i1 < s1.len(),
        is_alpha(s1[i1]),
        0 <= i2 < s2.len(),
        is_alpha(s2[i2]),
        s1.subrange(i1, word_end(s1, i1)) == s2.subrange(i2, word_end(s2, i2)),
    ensures
        scan(s1, i1).len() > 0,
        scan(s2, i2).len() > 0,
        scan(s1, i1)[0] == scan(s2, i2)[0],
{
    lemma_greedy_word(s1, i1);
    lemma_greedy_word(s2, i2);
}

pub(crate) proof fn lemma_toks_view_push(ts: Seq<Token>, t: Token)
    ensures
        toks_view(ts.push(t)) == toks_view(ts).push(tok_view(t)),
{
    assert(toks_view(ts.push(t)) =~= toks_view(ts).push(tok_view(t)));
}

/// Converts source text into its token sequence.
#[verifier::loop_isolation(false)]
pub fn lex(input: &str) -> (r: Vec<Token>)
    ensures
        toks_view(r@) == lex_spec(input@),
{
    let n = input.unicode_len();
    let mut tokens: Vec<Token> = Vec::new();
    let mut i: usize = 0;
    while i < n
        invariant
            i <= n,
            scan(input@, 0) == toks_view(tokens@) + scan(input@, i as int),
        decreases n - i,
    {
        let ghost prev = tokens@;
        let c = input.get_char(i);
        if alpha_char(c) {
            let mut j = i + 1;
            while j < n && ident_char(input.get_char(j))
                invariant
                    i < j <= n,
                    forall|k: int| i + 1 <= k < j ==> is_ident_char(#[trigger] input@[k]),
                decreases n - j,
            {
                j += 1;
            }
            proof {
                lemma_run_len_unique(input@, i as int + 1, j as int, |c: char| is_ident_char(c));
                assert(word_end(input@, i as int) == j as int);
            }
            let w = input.substring_char(i, j);
            let tok = if str_eq(w, "let") {
                Token::Let
            } else if str_eq(w, "fn") {
                Token::Fn
            } else {
                Token::Name { name: w.to_owned() }
            };
            proof {
                assert(tok_view(tok) == word_tok(input@.subrange(i as int, j as int)));
            }
            tokens.push(tok);
            proof {
                lemma_toks_view_push(prev, tok);
                assert(toks_view(prev) + scan(input@, i as int) =~= toks_view(tokens@) + scan(
                    input@,
                    j as int,
                ));
            }
            i = j;
        } else if digit_char(c) {
            let mut j = i + 1;
            while j < n && digit_char(input.get_char(j))
                invariant
                    i < j <= n,
                    forall|k: int| i + 1 <= k < j ==> is_digit(#[trigger] input@[k]),
                decreases n - j,
            {
                j += 1;
            }
            proof {
                lemma_run_len_unique(input@, i as int + 1, j as int, |c: char| is_digit(c));
                assert(number_end(input@, i as int) == j as int);
            }
            let w = input.substring_char(i, j);
            let tok = Token::Int { value: w.to_owned() };
            tokens.push(tok);
            proof {
                lemma_toks_view_push(prev, tok);
                assert(toks_view(prev) + scan(input@, i as int) =~= toks_view(tokens@) + scan(
                    input@,
                    j as int,
                ));
            }
            i = j;
        } else {
            let punct = if c == ':' {
                Some(Token::Colon)
            } else if c == ',' {
                Some(Token::Comma)
            } else if c == '=' {
                Some(Token::Equal)
            } else if c == ';' {
                Some(Token::SemiColon)
            } else if c == '(' {
                Some(Token::LeftParen)
            } else if c == ')' {
                Some(Token::RightParen)
            } else if c == '{' {
                Some(Token::LeftBrace)
            } else if c == '}' {
                Some(Token::RightBrace)
            } else {
                None
            };
            match punct {
                Some(tok) => {
                    proof {
                        assert(punct_tok(input@[i as int]) == Some(tok_view(tok)));
                    }
                    tokens.push(tok);
                    proof {
                        lemma_toks_view_push(prev, tok);
                        assert(toks_view(prev) + scan(input@, i as int) =~= toks_view(tokens@)
                            + scan(input@, i as int + 1));
                    }
                },
                None => {
                    proof {
                        assert(punct_tok(input@[i as int]) is None);
                        assert(scan(input@, i as int) == scan(input@, i as int + 1));
                    }
                },
            }
            i += 1;
        }
    }
    proof {
        assert(scan(input@, n as int) =~= Seq::<TokV>::empty());
        assert(toks_view(tokens@) + scan(input@, n as int) =~= toks_view(tokens@));
    }
    let ghost scanned = tokens@;
    tokens.push(Token::EndOfFile);
    proof {
        lemma_toks_view_push(scanned, Token::EndOfFile);
    }
    tokens
}

} // verus!
