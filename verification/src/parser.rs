//! The surface-syntax parser: a hand-written tokenizer and recursive-descent
//! parser that builds the node model of `ast`.
//!
//! The language's runtime semantics deliberately do not depend on this
//! module: the evaluator's contracts are stated over the node model alone.
//! The parser's only decisions are operator-precedence grouping and the
//! `for`-loop desugaring.  Every function here is total: bad input yields
//! `SyntaxError`, never a panic.

use vstd::prelude::*;
use vstd::string::StrSliceExecFns;

use crate::ast::{
    expr_view, exprs_view, labelled_params_view, names_view, toplevel_view, toplevels_view, Ast,
    Expression, ExpressionView, LabelledParameter, LabelledParameterView, Operator, Program,
    TopLevel, TopLevelView,
};
use crate::error::EvalError;

verus! {

/// One lexical token of the surface syntax.
enum Token {
    Integer(i32),
    Identifier(String),
    KwDefine,
    KwGlobal,
    KwIf,
    KwElse,
    KwWhile,
    KwFor,
    KwIn,
    KwTo,
    KwPrintln,
    Plus,
    Minus,
    Star,
    Slash,
    Lt,
    Le,
    Gt,
    Ge,
    EqEq,
    Ne,
    Assign,
    Semicolon,
    Comma,
    LParen,
    RParen,
    LBrace,
    RBrace,
    LBracket,
    RBracket,
}

/// The ghost shape of one token.
#[verifier::ext_equal]
pub ghost enum TokenView {
    Integer(i32),
    Identifier(Seq<char>),
    KwDefine,
    KwGlobal,
    KwIf,
    KwElse,
    KwWhile,
    KwFor,
    KwIn,
    KwTo,
    KwPrintln,
    Plus,
    Minus,
    Star,
    Slash,
    Lt,
    Le,
    Gt,
    Ge,
    EqEq,
    Ne,
    Assign,
    Semicolon,
    Comma,
    LParen,
    RParen,
    LBrace,
    RBrace,
    LBracket,
    RBracket,
}

spec fn token_view(t: Token) -> TokenView {
    match t {
        Token::Integer(v) => TokenView::Integer(v),
        Token::Identifier(n) => TokenView::Identifier(n@),
        Token::KwDefine => TokenView::KwDefine,
        Token::KwGlobal => TokenView::KwGlobal,
        Token::KwIf => TokenView::KwIf,
        Token::KwElse => TokenView::KwElse,
        Token::KwWhile => TokenView::KwWhile,
        Token::KwFor => TokenView::KwFor,
        Token::KwIn => TokenView::KwIn,
        Token::KwTo => TokenView::KwTo,
        Token::KwPrintln => TokenView::KwPrintln,
        Token::Plus => TokenView::Plus,
        Token::Minus => TokenView::Minus,
        Token::Star => TokenView::Star,
        Token::Slash => TokenView::Slash,
        Token::Lt => TokenView::Lt,
        Token::Le => TokenView::Le,
        Token::Gt => TokenView::Gt,
        Token::Ge => TokenView::Ge,
        Token::EqEq => TokenView::EqEq,
        Token::Ne => TokenView::Ne,
        Token::Assign => TokenView::Assign,
        Token::Semicolon => TokenView::Semicolon,
        Token::Comma => TokenView::Comma,
        Token::LParen => TokenView::LParen,
        Token::RParen => TokenView::RParen,
        Token::LBrace => TokenView::LBrace,
        Token::RBrace => TokenView::RBrace,
        Token::LBracket => TokenView::LBracket,
        Token::RBracket => TokenView::RBracket,
    }
}

spec fn tokens_view(s: Seq<Token>) -> Seq<TokenView> {
    Seq::new(s.len(), |i: int| token_view(s[i]))
}

pub open spec fn is_space_c(c: char) -> bool {
    let u = c as u32;
    u == 32 || u == 9 || u == 10 || u == 13
}

pub open spec fn is_digit_c(c: char) -> bool {
    48 <= c as u32 <= 57
}

pub open spec fn is_ident_start_c(c: char) -> bool {
    let u = c as u32;
    (65 <= u && u <= 90) || (97 <= u && u <= 122) || u == 95
}

pub open spec fn is_ident_c(c: char) -> bool {
    let u = c as u32;
    (65 <= u && u <= 90) || (97 <= u && u <= 122) || u == 95 || (48 <= u && u <= 57)
}

pub open spec fn digit_val(c: char) -> int {
    c as u32 - 48
}

/// The value and end position of a run of digits starting at `i`, carrying
/// the digits read so far in `acc`; a literal beyond 32 bits is rejected.
pub open spec fn scan_number(s: Seq<char>, i: int, acc: int) -> Option<(int, int)>
    decreases s.len() - i,
{
    if 0 <= i < s.len() && is_digit_c(s[i]) {
        let acc2 = acc * 10 + digit_val(s[i]);
        if acc2 > 0x7fff_ffff {
            None
        } else {
            scan_number(s, i + 1, acc2)
        }
    } else {
        Some((acc, i))
    }
}

/// The end of the run of identifier characters starting at `i`.
pub open spec fn scan_ident_end(s: Seq<char>, i: int) -> int
    decreases s.len() - i,
{
    if 0 <= i < s.len() && is_ident_c(s[i]) {
        scan_ident_end(s, i + 1)
    } else {
        i
    }
}

/// The token a word denotes: a keyword, or an identifier.
pub open spec fn keyword_or_ident(word: Seq<char>) -> TokenView {
    if word == "define"@ {
        TokenView::KwDefine
    } else if word == "global"@ {
        TokenView::KwGlobal
    } else if word == "if"@ {
        TokenView::KwIf
    } else if word == "else"@ {
        TokenView::KwElse
    } else if word == "while"@ {
        TokenView::KwWhile
    } else if word == "for"@ {
        TokenView::KwFor
    } else if word == "in"@ {
        TokenView::KwIn
    } else if word == "to"@ {
        TokenView::KwTo
    } else if word == "println"@ {
        TokenView::KwPrintln
    } else {
        TokenView::Identifier(word)
    }
}

/// Prepends one token to a tokenization that may have failed.
pub open spec fn cons_token(t: TokenView, rest: Option<Seq<TokenView>>) -> Option<Seq<TokenView>> {
    match rest {
        Some(r) => Some(seq![t] + r),
        None => None,
    }
}

/// The tokens of the source text from position `i` on, or `None` when a
/// character outside the surface syntax (or an oversized literal) appears.
/// This is the lexical half of the grammar's definition.
pub open spec fn tokens_spec(s: Seq<char>, i: int) -> Option<Seq<TokenView>>
    decreases s.len() - i,
{
    if i < 0 || i >= s.len() {
        Some(Seq::empty())
    } else if is_space_c(s[i]) {
        tokens_spec(s, i + 1)
    } else if is_digit_c(s[i]) {
        match scan_number(s, i + 1, digit_val(s[i])) {
            None => None,
            Some((v, j)) => if i < j <= s.len() {
                cons_token(TokenView::Integer(v as i32), tokens_spec(s, j))
            } else {
                None
            },
        }
    } else if is_ident_start_c(s[i]) {
        let j = scan_ident_end(s, i + 1);
        if i < j <= s.len() {
            cons_token(keyword_or_ident(s.subrange(i, j)), tokens_spec(s, j))
        } else {
            None
        }
    } else {
        let u = s[i] as u32;
        if u == 43 {
            cons_token(TokenView::Plus, tokens_spec(s, i + 1))
        } else if u == 45 {
            cons_token(TokenView::Minus, tokens_spec(s, i + 1))
        } else if u == 42 {
            cons_token(TokenView::Star, tokens_spec(s, i + 1))
        } else if u == 47 {
            cons_token(TokenView::Slash, tokens_spec(s, i + 1))
        } else if u == 59 {
            cons_token(TokenView::Semicolon, tokens_spec(s, i + 1))
        } else if u == 44 {
            cons_token(TokenView::Comma, tokens_spec(s, i + 1))
        } else if u == 40 {
            cons_token(TokenView::LParen, tokens_spec(s, i + 1))
        } else if u == 41 {
            cons_token(TokenView::RParen, tokens_spec(s, i + 1))
        } else if u == 123 {
            cons_token(TokenView::LBrace, tokens_spec(s, i + 1))
        } else if u == 125 {
            cons_token(TokenView::RBrace, tokens_spec(s, i + 1))
        } else if u == 91 {
            cons_token(TokenView::LBracket, tokens_spec(s, i + 1))
        } else if u == 93 {
            cons_token(TokenView::RBracket, tokens_spec(s, i + 1))
        } else if u == 60 {
            if i + 1 < s.len() && s[i + 1] as u32 == 61 {
                cons_token(TokenView::Le, tokens_spec(s, i + 2))
            } else {
                cons_token(TokenView::Lt, tokens_spec(s, i + 1))
            }
        } else if u == 62 {
            if i + 1 < s.len() && s[i + 1] as u32 == 61 {
                cons_token(TokenView::Ge, tokens_spec(s, i + 2))
            } else {
                cons_token(TokenView::Gt, tokens_spec(s, i + 1))
            }
        } else if u == 61 {
            if i + 1 < s.len() && s[i + 1] as u32 == 61 {
                cons_token(TokenView::EqEq, tokens_spec(s, i + 2))
            } else {
                cons_token(TokenView::Assign, tokens_spec(s, i + 1))
            }
        } else if u == 33 {
            if i + 1 < s.len() && s[i + 1] as u32 == 61 {
                cons_token(TokenView::Ne, tokens_spec(s, i + 2))
            } else {
                None
            }
        } else {
            None
        }
    }
}

/// Appending one token to a tokenized prefix.
pub open spec fn opt_concat(prefix: Seq<TokenView>, rest: Option<Seq<TokenView>>) -> Option<Seq<TokenView>> {
    match rest {
        Some(r) => Some(prefix + r),
        None => None,
    }
}

proof fn lemma_opt_concat_push(prefix: Seq<TokenView>, t: TokenView, rest: Option<Seq<TokenView>>)
    ensures
        opt_concat(prefix, cons_token(t, rest)) == opt_concat(prefix.push(t), rest),
{
    match rest {
        Some(r) => {
            assert(prefix + (seq![t] + r) =~= prefix.push(t) + r);
        },
        None => {},
    }
}

fn is_space_char(c: char) -> (r: bool)
    ensures
        r == is_space_c(c),
{
    let u = c as u32;
    u == 32 || u == 9 || u == 10 || u == 13
}

fn is_digit_char(c: char) -> (r: bool)
    ensures
        r == is_digit_c(c),
{
    let u = c as u32;
    48 <= u && u <= 57
}

fn is_ident_start_char(c: char) -> (r: bool)
    ensures
        r == is_ident_start_c(c),
{
    let u = c as u32;
    (65 <= u && u <= 90) || (97 <= u && u <= 122) || u == 95
}

fn is_ident_char(c: char) -> (r: bool)
    ensures
        r == is_ident_c(c),
{
    let u = c as u32;
    (65 <= u && u <= 90) || (97 <= u && u <= 122) || u == 95 || (48 <= u && u <= 57)
}

/// Character-by-character string equality.
fn str_eq_str(a: &str, b: &str) -> (r: bool)
    ensures
        r == (a@ == b@),
{
    let la = a.unicode_len();
    let lb = b.unicode_len();
    if la != lb {
        return false;
    }
    let mut i: usize = 0;
    while i < la
        invariant
            i <= la,
            la == a@.len(),
            lb == b@.len(),
            la == lb,
            forall|k: int| 0 <= k < i ==> a@[k] == b@[k],
        decreases la - i,
    {
        if a.get_char(i) != b.get_char(i) {
            return false;
        }
        i = i + 1;
    }
    proof {
        assert(a@ =~= b@);
    }
    true
}

/// The token a scanned word denotes: a keyword, or an identifier.
fn ident_token(word: &str) -> (r: Token)
    ensures
        token_view(r) == keyword_or_ident(word@),
{
    if str_eq_str(word, "define") {
        Token::KwDefine
    } else if str_eq_str(word, "global") {
        Token::KwGlobal
    } else if str_eq_str(word, "if") {
        Token::KwIf
    } else if str_eq_str(word, "else") {
        Token::KwElse
    } else if str_eq_str(word, "while") {
        Token::KwWhile
    } else if str_eq_str(word, "for") {
        Token::KwFor
    } else if str_eq_str(word, "in") {
        Token::KwIn
    } else if str_eq_str(word, "to") {
        Token::KwTo
    } else if str_eq_str(word, "println") {
        Token::KwPrintln
    } else {
        Token::Identifier(word.to_owned())
    }
}

/// Splits source text into tokens; any character outside the surface syntax,
/// and any integer literal beyond 32 bits, is a syntax error.  The result is
/// exactly what `tokens_spec` says of the text.
#[verifier::loop_isolation(false)]
#[verifier::rlimit(60)]
fn tokenize(src: &str) -> (r: Result<Vec<Token>, EvalError>)
    ensures
        match r {
            Ok(toks) => tokens_spec(src@, 0) == Some(tokens_view(toks@)),
            Err(e) => tokens_spec(src@, 0) is None && e == EvalError::SyntaxError,
        },
{
    let n = src.unicode_len();
    let mut toks: Vec<Token> = Vec::new();
    let mut i: usize = 0;
    proof {
        assert(tokens_view(toks@) + tokens_spec(src@, 0).unwrap() =~= tokens_spec(
            src@,
            0,
        ).unwrap()) by {
            if tokens_spec(src@, 0) is Some {
            }
        };
    }
    while i < n
        invariant
            i <= n,
            n == src@.len(),
            tokens_spec(src@, 0) == opt_concat(tokens_view(toks@), tokens_spec(src@, i as int)),
        decreases n - i,
    {
        let c = src.get_char(i);
        if is_space_char(c) {
            i = i + 1;
        } else {
            let ghost i0 = i as int;
            let ghost prefix = tokens_view(toks@);
            let tok: Token;
            let next: usize;
            if is_digit_char(c) {
                let mut acc: i64 = (c as u32 - 48) as i64;
                let mut j: usize = i + 1;
                while j < n && is_digit_char(src.get_char(j))
                    invariant
                        i + 1 <= j <= n,
                        0 <= acc <= 0x7fff_ffff,
                        scan_number(src@, i0 + 1, digit_val(src@[i0])) == scan_number(
                            src@,
                            j as int,
                            acc as int,
                        ),
                    decreases n - j,
                {
                    let d = (src.get_char(j) as u32 - 48) as i64;
                    acc = acc * 10 + d;
                    if acc > 0x7fff_ffff {
                        return Err(EvalError::SyntaxError);
                    }
                    j = j + 1;
                }
                tok = Token::Integer(acc as i32);
                next = j;
            } else if is_ident_start_char(c) {
                let mut j: usize = i + 1;
                while j < n && is_ident_char(src.get_char(j))
                    invariant
                        i + 1 <= j <= n,
                        scan_ident_end(src@, i0 + 1) == scan_ident_end(src@, j as int),
                    decreases n - j,
                {
                    j = j + 1;
                }
                let word = src.substring_char(i, j);
                tok = ident_token(word);
                next = j;
            } else {
                let u = c as u32;
                if u == 43 {
                    tok = Token::Plus;
                    next = i + 1;
                } else if u == 45 {
                    tok = Token::Minus;
                    next = i + 1;
                } else if u == 42 {
                    tok = Token::Star;
                    next = i + 1;
                } else if u == 47 {
                    tok = Token::Slash;
                    next = i + 1;
                } else if u == 59 {
                    tok = Token::Semicolon;
                    next = i + 1;
                } else if u == 44 {
                    tok = Token::Comma;
                    next = i + 1;
                } else if u == 40 {
                    tok = Token::LParen;
                    next = i + 1;
                } else if u == 41 {
                    tok = Token::RParen;
                    next = i + 1;
                } else if u == 123 {
                    tok = Token::LBrace;
                    next = i + 1;
                } else if u == 125 {
                    tok = Token::RBrace;
                    next = i + 1;
                } else if u == 91 {
                    tok = Token::LBracket;
                    next = i + 1;
                } else if u == 93 {
                    tok = Token::RBracket;
                    next = i + 1;
                } else if u == 60 {
                    if i + 1 < n && src.get_char(i + 1) as u32 == 61 {
                        tok = Token::Le;
                        next = i + 2;
                    } else {
                        tok = Token::Lt;
                        next = i + 1;
                    }
                } else if u == 62 {
                    if i + 1 < n && src.get_char(i + 1) as u32 == 61 {
                        tok = Token::Ge;
                        next = i + 2;
                    } else {
                        tok = Token::Gt;
                        next = i + 1;
                    }
                } else if u == 61 {
                    if i + 1 < n && src.get_char(i + 1) as u32 == 61 {
                        tok = Token::EqEq;
                        next = i + 2;
                    } else {
                        tok = Token::Assign;
                        next = i + 1;
                    }
                } else if u == 33 {
                    if i + 1 < n && src.get_char(i + 1) as u32 == 61 {
                        tok = Token::Ne;
                        next = i + 2;
                    } else {
                        return Err(EvalError::SyntaxError);
                    }
                } else {
                    return Err(EvalError::SyntaxError);
                }
            }
            proof {
                assert(tokens_spec(src@, i0) == cons_token(
                    token_view(tok),
                    tokens_spec(src@, next as int),
                ));
                lemma_opt_concat_push(prefix, token_view(tok), tokens_spec(src@, next as int));
                assert(tokens_view(toks@.push(tok)) =~= prefix.push(token_view(tok)));
            }
            toks.push(tok);
            i = next;
        }
    }
    proof {
        assert(tokens_spec(src@, i as int) == Some(Seq::<TokenView>::empty()));
        assert(tokens_view(toks@) + Seq::<TokenView>::empty() =~= tokens_view(toks@));
    }
    Ok(toks)
}


/// `primary`, as a function of the token sequence: the parse tree and the
/// next position, or `None` for text outside the grammar.  Together with the
/// functions below this is the syntactic half of the grammar's definition;
/// the position guards only restate that parsing consumes input.
pub open spec fn parse_primary_spec(toks: Seq<TokenView>, pos: int) -> Option<(ExpressionView, int)>
    decreases toks.len() - pos, 1int,
{
    if pos < 0 || pos >= toks.len() {
        None
    } else {
        match toks[pos] {
            TokenView::Integer(v) => Some((ExpressionView::IntegerLiteral(v), pos + 1)),
            TokenView::LParen => match parse_expression_spec(toks, pos + 1) {
                None => None,
                Some((e, p)) => if p < toks.len() && toks[p] is RParen {
                    Some((e, p + 1))
                } else {
                    None
                },
            },
            TokenView::Identifier(name) => if pos + 1 < toks.len() && toks[pos + 1] is LParen {
                if pos + 2 < toks.len() && toks[pos + 2] is RParen {
                    Some(
                        ((ExpressionView::FunctionCall { name, args: Seq::empty() }), pos + 3),
                    )
                } else {
                    match parse_call_args_spec(toks, pos + 2, Seq::empty()) {
                        None => None,
                        Some((args, p)) => if p < toks.len() && toks[p] is RParen {
                            Some(((ExpressionView::FunctionCall { name, args }), p + 1))
                        } else {
                            None
                        },
                    }
                }
            } else if pos + 1 < toks.len() && toks[pos + 1] is LBracket {
                match parse_labelled_args_spec(toks, pos + 2, Seq::empty()) {
                    None => None,
                    Some((args, p)) => if p < toks.len() && toks[p] is RBracket {
                        Some(((ExpressionView::LabelledCall { name, args }), p + 1))
                    } else {
                        None
                    },
                }
            } else {
                Some((ExpressionView::Identifier(name), pos + 1))
            },
            _ => None,
        }
    }
}

/// Comma-separated expressions of a positional call.
pub open spec fn parse_call_args_spec(toks: Seq<TokenView>, pos: int, args: Seq<ExpressionView>) -> Option<
    (Seq<ExpressionView>, int),
>
    decreases toks.len() - pos, 6int,
{
    if pos < 0 || pos > toks.len() {
        None
    } else {
        match parse_expression_spec(toks, pos) {
            None => None,
            Some((e, p)) => if p < toks.len() && toks[p] is Comma {
                if pos < p + 1 <= toks.len() {
                    parse_call_args_spec(toks, p + 1, args.push(e))
                } else {
                    None
                }
            } else {
                Some((args.push(e), p))
            },
        }
    }
}

/// Comma-separated `label = expression` pairs of a labelled call.
pub open spec fn parse_labelled_args_spec(
    toks: Seq<TokenView>,
    pos: int,
    args: Seq<LabelledParameterView>,
) -> Option<(Seq<LabelledParameterView>, int)>
    decreases toks.len() - pos, 6int,
{
    if pos < 0 || pos >= toks.len() {
        None
    } else {
        match toks[pos] {
            TokenView::Identifier(label) => if pos + 1 < toks.len() && toks[pos + 1] is Assign {
                match parse_expression_spec(toks, pos + 2) {
                    None => None,
                    Some((e, p)) => {
                        let pair = LabelledParameterView { label, expression: e };
                        if p < toks.len() && toks[p] is Comma {
                            if pos < p + 1 <= toks.len() {
                                parse_labelled_args_spec(toks, p + 1, args.push(pair))
                            } else {
                                None
                            }
                        } else {
                            Some((args.push(pair), p))
                        }
                    },
                }
            } else {
                None
            },
            _ => None,
        }
    }
}

/// `multitive := primary (("*" | "/") primary)*`, grouped left to right.
pub open spec fn parse_multitive_spec(toks: Seq<TokenView>, pos: int) -> Option<(ExpressionView, int)>
    decreases toks.len() - pos, 2int,
{
    match parse_primary_spec(toks, pos) {
        None => None,
        Some((lhs, p)) => if pos < p <= toks.len() {
            parse_multitive_rest_spec(toks, p, lhs)
        } else {
            None
        },
    }
}

pub open spec fn parse_multitive_rest_spec(toks: Seq<TokenView>, pos: int, lhs: ExpressionView) -> Option<
    (ExpressionView, int),
>
    decreases toks.len() - pos, 2int,
{
    if 0 <= pos < toks.len() && (toks[pos] is Star || toks[pos] is Slash) {
        match parse_primary_spec(toks, pos + 1) {
            None => None,
            Some((rhs, p2)) => {
                let op = if toks[pos] is Star {
                    Operator::Multiply
                } else {
                    Operator::Divide
                };
                let combined = ExpressionView::Binary {
                    operator: op,
                    lhs: Box::new(lhs),
                    rhs: Box::new(rhs),
                };
                if pos < p2 <= toks.len() {
                    parse_multitive_rest_spec(toks, p2, combined)
                } else {
                    None
                }
            },
        }
    } else {
        Some((lhs, pos))
    }
}

/// `additive := multitive (("+" | "-") multitive)*`, grouped left to right.
pub open spec fn parse_additive_spec(toks: Seq<TokenView>, pos: int) -> Option<(ExpressionView, int)>
    decreases toks.len() - pos, 3int,
{
    match parse_multitive_spec(toks, pos) {
        None => None,
        Some((lhs, p)) => if pos < p <= toks.len() {
            parse_additive_rest_spec(toks, p, lhs)
        } else {
            None
        },
    }
}

pub open spec fn parse_additive_rest_spec(toks: Seq<TokenView>, pos: int, lhs: ExpressionView) -> Option<
    (ExpressionView, int),
>
    decreases toks.len() - pos, 3int,
{
    if 0 <= pos < toks.len() && (toks[pos] is Plus || toks[pos] is Minus) {
        match parse_multitive_spec(toks, pos + 1) {
            None => None,
            Some((rhs, p2)) => {
                let op = if toks[pos] is Plus {
                    Operator::Add
                } else {
                    Operator::Subtract
                };
                let combined = ExpressionView::Binary {
                    operator: op,
                    lhs: Box::new(lhs),
                    rhs: Box::new(rhs),
                };
                if pos < p2 <= toks.len() {
                    parse_additive_rest_spec(toks, p2, combined)
                } else {
                    None
                }
            },
        }
    } else {
        Some((lhs, pos))
    }
}

/// The comparison operator a token denotes, if any.
pub open spec fn comparison_op(t: TokenView) -> Option<Operator> {
    match t {
        TokenView::Lt => Some(Operator::LessThan),
        TokenView::Le => Some(Operator::LessOrEqual),
        TokenView::Gt => Some(Operator::GreaterThan),
        TokenView::Ge => Some(Operator::GreaterOrEqual),
        TokenView::EqEq => Some(Operator::EqualEqual),
        TokenView::Ne => Some(Operator::NotEqual),
        _ => None,
    }
}

/// `expression := additive (compare-op additive)?` — one optional
/// comparison, not chained.
pub open spec fn parse_expression_spec(toks: Seq<TokenView>, pos: int) -> Option<(ExpressionView, int)>
    decreases toks.len() - pos, 5int,
{
    match parse_additive_spec(toks, pos) {
        None => None,
        Some((lhs, p)) => if pos < p <= toks.len() {
            if p < toks.len() && comparison_op(toks[p]) is Some {
                match parse_additive_spec(toks, p + 1) {
                    None => None,
                    Some((rhs, p2)) => Some(
                        (
                            (ExpressionView::Binary {
                                operator: comparison_op(toks[p])->0,
                                lhs: Box::new(lhs),
                                rhs: Box::new(rhs),
                            }),
                            p2,
                        ),
                    ),
                }
            } else {
                Some((lhs, p))
            }
        } else {
            None
        },
    }
}

/// `expression ";"`
pub open spec fn parse_expression_line_spec(toks: Seq<TokenView>, pos: int) -> Option<
    (ExpressionView, int),
>
    decreases toks.len() - pos, 6int,
{
    match parse_expression_spec(toks, pos) {
        None => None,
        Some((e, p)) => if p < toks.len() && toks[p] is Semicolon {
            Some((e, p + 1))
        } else {
            None
        },
    }
}

/// One statement line: `println`, `if`, `while`, `for` (desugared), a block,
/// an assignment, or a bare expression line.
pub open spec fn parse_line_spec(toks: Seq<TokenView>, pos: int) -> Option<(ExpressionView, int)>
    decreases toks.len() - pos, 7int,
{
    if pos < 0 || pos >= toks.len() {
        None
    } else {
        match toks[pos] {
            TokenView::KwPrintln => if pos + 1 < toks.len() && toks[pos + 1] is LParen {
                match parse_expression_spec(toks, pos + 2) {
                    None => None,
                    Some((e, p)) => if p + 1 < toks.len() && toks[p] is RParen && toks[p + 1]
                        is Semicolon {
                        Some((ExpressionView::Println(Box::new(e)), p + 2))
                    } else {
                        None
                    },
                }
            } else {
                None
            },
            TokenView::KwIf => if pos + 1 < toks.len() && toks[pos + 1] is LParen {
                match parse_expression_spec(toks, pos + 2) {
                    None => None,
                    Some((cond, p)) => if p < toks.len() && toks[p] is RParen && pos < p + 1
                        <= toks.len() {
                        match parse_line_spec(toks, p + 1) {
                            None => None,
                            Some((then_clause, p2)) => if p2 < toks.len() && toks[p2] is KwElse {
                                if pos < p2 + 1 <= toks.len() {
                                    match parse_line_spec(toks, p2 + 1) {
                                        None => None,
                                        Some((else_clause, p3)) => Some(
                                            (
                                                (ExpressionView::If {
                                                    condition: Box::new(cond),
                                                    then_clause: Box::new(then_clause),
                                                    else_clause: Some(Box::new(else_clause)),
                                                }),
                                                p3,
                                            ),
                                        ),
                                    }
                                } else {
                                    None
                                }
                            } else {
                                Some(
                                    (
                                        (ExpressionView::If {
                                            condition: Box::new(cond),
                                            then_clause: Box::new(then_clause),
                                            else_clause: None,
                                        }),
                                        p2,
                                    ),
                                )
                            },
                        }
                    } else {
                        None
                    },
                }
            } else {
                None
            },
            TokenView::KwWhile => if pos + 1 < toks.len() && toks[pos + 1] is LParen {
                match parse_expression_spec(toks, pos + 2) {
                    None => None,
                    Some((cond, p)) => if p < toks.len() && toks[p] is RParen && pos < p + 1
                        <= toks.len() {
                        match parse_line_spec(toks, p + 1) {
                            None => None,
                            Some((body, p2)) => Some(
                                (
                                    (ExpressionView::While {
                                        condition: Box::new(cond),
                                        body: Box::new(body),
                                    }),
                                    p2,
                                ),
                            ),
                        }
                    } else {
                        None
                    },
                }
            } else {
                None
            },
            TokenView::KwFor => if pos + 3 < toks.len() && toks[pos + 1] is LParen && toks[pos + 2]
                is Identifier && toks[pos + 3] is KwIn {
                let loop_var = toks[pos + 2]->Identifier_0;
                match parse_expression_spec(toks, pos + 4) {
                    None => None,
                    Some((from_e, p)) => if p < toks.len() && toks[p] is KwTo && pos < p + 1
                        <= toks.len() {
                        match parse_expression_spec(toks, p + 1) {
                            None => None,
                            Some((to_e, p2)) => if p2 < toks.len() && toks[p2] is RParen && pos < p2
                                + 1 <= toks.len() {
                                match parse_line_spec(toks, p2 + 1) {
                                    None => None,
                                    Some((body, p3)) => Some(
                                        (for_desugar_spec(loop_var, from_e, to_e, body), p3),
                                    ),
                                }
                            } else {
                                None
                            },
                        }
                    } else {
                        None
                    },
                }
            } else {
                None
            },
            TokenView::LBrace => match parse_block_lines_spec(toks, pos + 1, Seq::empty()) {
                None => None,
                Some((elems, p)) => Some((ExpressionView::Block(elems), p)),
            },
            TokenView::Identifier(name) => if pos + 1 < toks.len() && toks[pos + 1] is Assign {
                match parse_expression_spec(toks, pos + 2) {
                    None => None,
                    Some((e, p)) => if p < toks.len() && toks[p] is Semicolon {
                        Some(
                            (
                                (ExpressionView::Assignment { name, expression: Box::new(e) }),
                                p + 1,
                            ),
                        )
                    } else {
                        None
                    },
                }
            } else {
                parse_expression_line_spec(toks, pos)
            },
            _ => parse_expression_line_spec(toks, pos),
        }
    }
}

/// The desugaring that `for (v in a to b) body` is defined to mean:
/// `v = a; while (v <= b) { body; v = v + 1; }`.
pub open spec fn for_desugar_spec(
    loop_var: Seq<char>,
    from_e: ExpressionView,
    to_e: ExpressionView,
    body: ExpressionView,
) -> ExpressionView {
    let increment = ExpressionView::Assignment {
        name: loop_var,
        expression: Box::new(
            ExpressionView::Binary {
                operator: Operator::Add,
                lhs: Box::new(ExpressionView::Identifier(loop_var)),
                rhs: Box::new(ExpressionView::IntegerLiteral(1)),
            },
        ),
    };
    ExpressionView::Block(
        seq![
            ExpressionView::Assignment { name: loop_var, expression: Box::new(from_e) },
            ExpressionView::While {
                condition: Box::new(
                    ExpressionView::Binary {
                        operator: Operator::LessOrEqual,
                        lhs: Box::new(ExpressionView::Identifier(loop_var)),
                        rhs: Box::new(to_e),
                    },
                ),
                body: Box::new(ExpressionView::Block(seq![body, increment])),
            },
        ],
    )
}

/// The lines of a block, up to and including the closing brace.
pub open spec fn parse_block_lines_spec(
    toks: Seq<TokenView>,
    pos: int,
    elems: Seq<ExpressionView>,
) -> Option<(Seq<ExpressionView>, int)>
    decreases toks.len() - pos, 8int,
{
    if pos < 0 || pos >= toks.len() {
        None
    } else if toks[pos] is RBrace {
        Some((elems, pos + 1))
    } else {
        match parse_line_spec(toks, pos) {
            None => None,
            Some((e, p)) => if pos < p <= toks.len() {
                parse_block_lines_spec(toks, p, elems.push(e))
            } else {
                None
            },
        }
    }
}

/// The formal parameter names of a definition, up to and including the
/// closing parenthesis.
pub open spec fn parse_param_names_spec(toks: Seq<TokenView>, pos: int, names: Seq<Seq<char>>) -> Option<
    (Seq<Seq<char>>, int),
>
    decreases toks.len() - pos, 0int,
{
    if pos < 0 || pos >= toks.len() {
        None
    } else {
        match toks[pos] {
            TokenView::RParen => Some((names, pos + 1)),
            TokenView::Identifier(name) => if pos + 1 < toks.len() {
                if toks[pos + 1] is Comma {
                    parse_param_names_spec(toks, pos + 2, names.push(name))
                } else if toks[pos + 1] is RParen {
                    Some((names.push(name), pos + 2))
                } else {
                    None
                }
            } else {
                None
            },
            _ => None,
        }
    }
}

/// One top-level declaration: a function definition or a global variable.
pub open spec fn parse_toplevel_spec(toks: Seq<TokenView>, pos: int) -> Option<(TopLevelView, int)>
    decreases toks.len() - pos, 7int,
{
    if pos < 0 || pos >= toks.len() {
        None
    } else {
        match toks[pos] {
            TokenView::KwDefine => if pos + 2 < toks.len() && toks[pos + 1] is Identifier
                && toks[pos + 2] is LParen {
                let name = toks[pos + 1]->Identifier_0;
                match parse_param_names_spec(toks, pos + 3, Seq::empty()) {
                    None => None,
                    Some((params, p)) => if p < toks.len() && toks[p] is LBrace && pos < p
                        <= toks.len() {
                        match parse_line_spec(toks, p) {
                            None => None,
                            Some((body, p2)) => Some(
                                (
                                    TopLevelView::FunctionDefinition(
                                        crate::ast::FunctionDefinitionView {
                                            name,
                                            args: params,
                                            body,
                                        },
                                    ),
                                    p2,
                                ),
                            ),
                        }
                    } else {
                        None
                    },
                }
            } else {
                None
            },
            TokenView::KwGlobal => if pos + 2 < toks.len() && toks[pos + 1] is Identifier
                && toks[pos + 2] is Assign {
                let name = toks[pos + 1]->Identifier_0;
                match parse_expression_spec(toks, pos + 3) {
                    None => None,
                    Some((e, p)) => if p < toks.len() && toks[p] is Semicolon {
                        Some(((TopLevelView::GlobalVariableDefinition { name, body: e }), p + 1))
                    } else {
                        None
                    },
                }
            } else {
                None
            },
            _ => None,
        }
    }
}

pub open spec fn parse_toplevels_spec(toks: Seq<TokenView>, pos: int, defs: Seq<TopLevelView>) -> Option<
    Seq<TopLevelView>,
>
    decreases toks.len() - pos, 8int,
{
    if pos >= toks.len() {
        Some(defs)
    } else if pos < 0 {
        None
    } else {
        match parse_toplevel_spec(toks, pos) {
            None => None,
            Some((d, p)) => if pos < p <= toks.len() {
                parse_toplevels_spec(toks, p, defs.push(d))
            } else {
                None
            },
        }
    }
}

pub open spec fn parse_all_lines_spec(toks: Seq<TokenView>, pos: int, lines: Seq<ExpressionView>) -> Option<
    Seq<ExpressionView>,
>
    decreases toks.len() - pos, 8int,
{
    if pos >= toks.len() {
        Some(lines)
    } else if pos < 0 {
        None
    } else {
        match parse_line_spec(toks, pos) {
            None => None,
            Some((e, p)) => if pos < p <= toks.len() {
                parse_all_lines_spec(toks, p, lines.push(e))
            } else {
                None
            },
        }
    }
}

/// The denotation of a program text under the surface grammar: its top-level
/// declarations, or `None` where the text does not conform.
pub open spec fn program_ast(text: Seq<char>) -> Option<Seq<TopLevelView>> {
    match tokens_spec(text, 0) {
        None => None,
        Some(toks) => parse_toplevels_spec(toks, 0, Seq::empty()),
    }
}

/// The denotation of a line-mode text: its expression lines in source order,
/// or `None` where the text does not conform.
pub open spec fn lines_ast(text: Seq<char>) -> Option<Seq<ExpressionView>> {
    match tokens_spec(text, 0) {
        None => None,
        Some(toks) => parse_all_lines_spec(toks, 0, Seq::empty()),
    }
}

/// `primary := "(" expression ")" | integer | call | labelled call |
/// identifier`
fn parse_primary(toks: &Vec<Token>, pos: usize) -> (r: Result<(Expression, usize), EvalError>)
    requires
        pos <= toks@.len(),
    ensures
        r matches Ok(p) ==> pos < p.1 <= toks@.len(),
        r matches Err(e) ==> e == EvalError::SyntaxError,
        ({
            let d = parse_primary_spec(tokens_view(toks@), pos as int);
            match r {
                Ok(p) => d == Some((expr_view(p.0), p.1 as int)),
                Err(_) => d is None,
            }
        }),
    decreases toks@.len() - pos, 1int,
{
    proof {
        assert(exprs_view(Seq::<Expression>::empty()) =~= Seq::<ExpressionView>::empty());
        assert(labelled_params_view(Seq::<LabelledParameter>::empty())
            =~= Seq::<LabelledParameterView>::empty());
    }
    if pos >= toks.len() {
        return Err(EvalError::SyntaxError);
    }
    match &toks[pos] {
        Token::Integer(v) => Ok((Ast::integer(*v), pos + 1)),
        Token::LParen => {
            let (e, p) = match parse_expression(toks, pos + 1) {
                Ok(x) => x,
                Err(e) => {
                    return Err(e);
                },
            };
            if p < toks.len() {
                match &toks[p] {
                    Token::RParen => Ok((e, p + 1)),
                    _ => Err(EvalError::SyntaxError),
                }
            } else {
                Err(EvalError::SyntaxError)
            }
        },
        Token::Identifier(name) => {
            if pos + 1 < toks.len() {
                match &toks[pos + 1] {
                    Token::LParen => {
                        if pos + 2 < toks.len() {
                            match &toks[pos + 2] {
                                Token::RParen => {
                                    return Ok((Ast::call(name.clone(), Vec::new()), pos + 3));
                                },
                                _ => {},
                            }
                        }
                        let (args, p) = match parse_call_args(toks, pos + 2, Vec::new()) {
                            Ok(x) => x,
                            Err(e) => {
                                return Err(e);
                            },
                        };
                        if p < toks.len() {
                            match &toks[p] {
                                Token::RParen => Ok((Ast::call(name.clone(), args), p + 1)),
                                _ => Err(EvalError::SyntaxError),
                            }
                        } else {
                            Err(EvalError::SyntaxError)
                        }
                    },
                    Token::LBracket => {
                        let (args, p) = match parse_labelled_args(toks, pos + 2, Vec::new()) {
                            Ok(x) => x,
                            Err(e) => {
                                return Err(e);
                            },
                        };
                        if p < toks.len() {
                            match &toks[p] {
                                Token::RBracket => Ok(
                                    (Ast::labelled_call(name.clone(), args), p + 1),
                                ),
                                _ => Err(EvalError::SyntaxError),
                            }
                        } else {
                            Err(EvalError::SyntaxError)
                        }
                    },
                    _ => Ok((Ast::symbol(name.clone()), pos + 1)),
                }
            } else {
                Ok((Ast::symbol(name.clone()), pos + 1))
            }
        },
        _ => Err(EvalError::SyntaxError),
    }
}

/// Comma-separated expressions of a positional call.
fn parse_call_args(toks: &Vec<Token>, pos: usize, args: Vec<Expression>) -> (r: Result<
    (Vec<Expression>, usize),
    EvalError,
>)
    requires
        pos <= toks@.len(),
    ensures
        r matches Ok(p) ==> pos < p.1 <= toks@.len(),
        r matches Err(e) ==> e == EvalError::SyntaxError,
        ({
            let d = parse_call_args_spec(tokens_view(toks@), pos as int, exprs_view(args@));
            match r {
                Ok(p) => d == Some((exprs_view(p.0@), p.1 as int)),
                Err(_) => d is None,
            }
        }),
    decreases toks@.len() - pos, 6int,
{
    let (e, p) = match parse_expression(toks, pos) {
        Ok(x) => x,
        Err(e) => {
            return Err(e);
        },
    };
    let ghost old_args = args@;
    let mut new_args = args;
    new_args.push(e);
    proof {
        assert(exprs_view(new_args@) =~= exprs_view(old_args).push(expr_view(e)));
    }
    if p < toks.len() {
        match &toks[p] {
            Token::Comma => {
                return parse_call_args(toks, p + 1, new_args);
            },
            _ => {},
        }
    }
    Ok((new_args, p))
}

/// Comma-separated `label = expression` pairs of a labelled call.
fn parse_labelled_args(toks: &Vec<Token>, pos: usize, args: Vec<LabelledParameter>) -> (r: Result<
    (Vec<LabelledParameter>, usize),
    EvalError,
>)
    requires
        pos <= toks@.len(),
    ensures
        r matches Ok(p) ==> pos < p.1 <= toks@.len(),
        r matches Err(e) ==> e == EvalError::SyntaxError,
        ({
            let d = parse_labelled_args_spec(
                tokens_view(toks@),
                pos as int,
                labelled_params_view(args@),
            );
            match r {
                Ok(p) => d == Some((labelled_params_view(p.0@), p.1 as int)),
                Err(_) => d is None,
            }
        }),
    decreases toks@.len() - pos, 6int,
{
    if pos >= toks.len() {
        return Err(EvalError::SyntaxError);
    }
    let label = match &toks[pos] {
        Token::Identifier(name) => name.clone(),
        _ => {
            return Err(EvalError::SyntaxError);
        },
    };
    if pos + 1 >= toks.len() {
        return Err(EvalError::SyntaxError);
    }
    match &toks[pos + 1] {
        Token::Assign => {},
        _ => {
            return Err(EvalError::SyntaxError);
        },
    }
    let (e, p) = match parse_expression(toks, pos + 2) {
        Ok(x) => x,
        Err(e) => {
            return Err(e);
        },
    };
    let ghost old_args = args@;
    let mut new_args = args;
    new_args.push(Ast::labelled_parameter(label, e));
    proof {
        assert(labelled_params_view(new_args@) =~= labelled_params_view(old_args).push(
            labelled_params_view(new_args@).last(),
        ));
    }
    if p < toks.len() {
        match &toks[p] {
            Token::Comma => {
                return parse_labelled_args(toks, p + 1, new_args);
            },
            _ => {},
        }
    }
    Ok((new_args, p))
}

/// `multitive := primary (("*" | "/") primary)*`, grouped left to right.
fn parse_multitive(toks: &Vec<Token>, pos: usize) -> (r: Result<(Expression, usize), EvalError>)
    requires
        pos <= toks@.len(),
    ensures
        r matches Ok(p) ==> pos < p.1 <= toks@.len(),
        r matches Err(e) ==> e == EvalError::SyntaxError,
        ({
            let d = parse_multitive_spec(tokens_view(toks@), pos as int);
            match r {
                Ok(p) => d == Some((expr_view(p.0), p.1 as int)),
                Err(_) => d is None,
            }
        }),
    decreases toks@.len() - pos, 2int,
{
    let (lhs, p) = match parse_primary(toks, pos) {
        Ok(x) => x,
        Err(e) => {
            return Err(e);
        },
    };
    parse_multitive_rest(toks, p, lhs)
}

fn parse_multitive_rest(toks: &Vec<Token>, pos: usize, lhs: Expression) -> (r: Result<
    (Expression, usize),
    EvalError,
>)
    requires
        pos <= toks@.len(),
    ensures
        r matches Ok(p) ==> pos <= p.1 <= toks@.len(),
        r matches Err(e) ==> e == EvalError::SyntaxError,
        ({
            let d = parse_multitive_rest_spec(tokens_view(toks@), pos as int, expr_view(lhs));
            match r {
                Ok(p) => d == Some((expr_view(p.0), p.1 as int)),
                Err(_) => d is None,
            }
        }),
    decreases toks@.len() - pos, 2int,
{
    if pos < toks.len() {
        match &toks[pos] {
            Token::Star => {
                let (rhs, p2) = match parse_primary(toks, pos + 1) {
                    Ok(x) => x,
                    Err(e) => {
                        return Err(e);
                    },
                };
                return parse_multitive_rest(toks, p2, Ast::multiply(lhs, rhs));
            },
            Token::Slash => {
                let (rhs, p2) = match parse_primary(toks, pos + 1) {
                    Ok(x) => x,
                    Err(e) => {
                        return Err(e);
                    },
                };
                return parse_multitive_rest(toks, p2, Ast::divide(lhs, rhs));
            },
            _ => {},
        }
    }
    Ok((lhs, pos))
}

/// `additive := multitive (("+" | "-") multitive)*`, grouped left to right.
fn parse_additive(toks: &Vec<Token>, pos: usize) -> (r: Result<(Expression, usize), EvalError>)
    requires
        pos <= toks@.len(),
    ensures
        r matches Ok(p) ==> pos < p.1 <= toks@.len(),
        r matches Err(e) ==> e == EvalError::SyntaxError,
        ({
            let d = parse_additive_spec(tokens_view(toks@), pos as int);
            match r {
                Ok(p) => d == Some((expr_view(p.0), p.1 as int)),
                Err(_) => d is None,
            }
        }),
    decreases toks@.len() - pos, 3int,
{
    let (lhs, p) = match parse_multitive(toks, pos) {
        Ok(x) => x,
        Err(e) => {
            return Err(e);
        },
    };
    parse_additive_rest(toks, p, lhs)
}

fn parse_additive_rest(toks: &Vec<Token>, pos: usize, lhs: Expression) -> (r: Result<
    (Expression, usize),
    EvalError,
>)
    requires
        pos <= toks@.len(),
    ensures
        r matches Ok(p) ==> pos <= p.1 <= toks@.len(),
        r matches Err(e) ==> e == EvalError::SyntaxError,
        ({
            let d = parse_additive_rest_spec(tokens_view(toks@), pos as int, expr_view(lhs));
            match r {
                Ok(p) => d == Some((expr_view(p.0), p.1 as int)),
                Err(_) => d is None,
            }
        }),
    decreases toks@.len() - pos, 3int,
{
    if pos < toks.len() {
        match &toks[pos] {
            Token::Plus => {
                let (rhs, p2) = match parse_multitive(toks, pos + 1) {
                    Ok(x) => x,
                    Err(e) => {
                        return Err(e);
                    },
                };
                return parse_additive_rest(toks, p2, Ast::add(lhs, rhs));
            },
            Token::Minus => {
                let (rhs, p2) = match parse_multitive(toks, pos + 1) {
                    Ok(x) => x,
                    Err(e) => {
                        return Err(e);
                    },
                };
                return parse_additive_rest(toks, p2, Ast::subtract(lhs, rhs));
            },
            _ => {},
        }
    }
    Ok((lhs, pos))
}

/// `expression := additive (compare-op additive)?` — one optional comparison,
/// not chained.
fn parse_expression(toks: &Vec<Token>, pos: usize) -> (r: Result<(Expression, usize), EvalError>)
    requires
        pos <= toks@.len(),
    ensures
        r matches Ok(p) ==> pos < p.1 <= toks@.len(),
        r matches Err(e) ==> e == EvalError::SyntaxError,
        ({
            let d = parse_expression_spec(tokens_view(toks@), pos as int);
            match r {
                Ok(p) => d == Some((expr_view(p.0), p.1 as int)),
                Err(_) => d is None,
            }
        }),
    decreases toks@.len() - pos, 5int,
{
    let (lhs, p) = match parse_additive(toks, pos) {
        Ok(x) => x,
        Err(e) => {
            return Err(e);
        },
    };
    if p < toks.len() {
        let op: Option<u32> = match &toks[p] {
            Token::Lt => Some(0),
            Token::Le => Some(1),
            Token::Gt => Some(2),
            Token::Ge => Some(3),
            Token::EqEq => Some(4),
            Token::Ne => Some(5),
            _ => None,
        };
        match op {
            Some(code) => {
                let (rhs, p2) = match parse_additive(toks, p + 1) {
                    Ok(x) => x,
                    Err(e) => {
                        return Err(e);
                    },
                };
                let e = if code == 0 {
                    Ast::less_than(lhs, rhs)
                } else if code == 1 {
                    Ast::less_or_equal(lhs, rhs)
                } else if code == 2 {
                    Ast::greater_than(lhs, rhs)
                } else if code == 3 {
                    Ast::greater_or_equal(lhs, rhs)
                } else if code == 4 {
                    Ast::equal_equal(lhs, rhs)
                } else {
                    Ast::not_equal(lhs, rhs)
                };
                Ok((e, p2))
            },
            None => Ok((lhs, p)),
        }
    } else {
        Ok((lhs, p))
    }
}

#[verifier::rlimit(100)]
#[verifier::spinoff_prover]
fn parse_println_line(toks: &Vec<Token>, pos: usize) -> (r: Result<(Expression, usize), EvalError>)
    requires
        pos < toks@.len(),
        tokens_view(toks@)[pos as int] is KwPrintln,
    ensures
        r matches Ok(p) ==> pos < p.1 <= toks@.len(),
        r matches Err(e) ==> e == EvalError::SyntaxError,
        ({
            let d = parse_line_spec(tokens_view(toks@), pos as int);
            match r {
                Ok(p) => d == Some((expr_view(p.0), p.1 as int)),
                Err(_) => d is None,
            }
        }),
    decreases toks@.len() - pos, 6int,
{
    if pos >= toks.len() {
        return Err(EvalError::SyntaxError);
    }
    if pos + 1 >= toks.len() {
        return Err(EvalError::SyntaxError);
    }
    match &toks[pos + 1] {
        Token::LParen => {},
        _ => {
            return Err(EvalError::SyntaxError);
        },
    }
    let (e, p) = match parse_expression(toks, pos + 2) {
        Ok(x) => x,
        Err(e) => {
            return Err(e);
        },
    };
    if p >= toks.len() {
        return Err(EvalError::SyntaxError);
    }
    if p + 1 >= toks.len() {
        return Err(EvalError::SyntaxError);
    }
    match (&toks[p], &toks[p + 1]) {
        (Token::RParen, Token::Semicolon) => Ok((Ast::println(e), p + 2)),
        _ => Err(EvalError::SyntaxError),
    }
}

#[verifier::rlimit(100)]
#[verifier::spinoff_prover]
fn parse_if_line(toks: &Vec<Token>, pos: usize) -> (r: Result<(Expression, usize), EvalError>)
    requires
        pos < toks@.len(),
        tokens_view(toks@)[pos as int] is KwIf,
    ensures
        r matches Ok(p) ==> pos < p.1 <= toks@.len(),
        r matches Err(e) ==> e == EvalError::SyntaxError,
        ({
            let d = parse_line_spec(tokens_view(toks@), pos as int);
            match r {
                Ok(p) => d == Some((expr_view(p.0), p.1 as int)),
                Err(_) => d is None,
            }
        }),
    decreases toks@.len() - pos, 6int,
{
    if pos >= toks.len() {
        return Err(EvalError::SyntaxError);
    }
    if pos + 1 >= toks.len() {
        return Err(EvalError::SyntaxError);
    }
    match &toks[pos + 1] {
        Token::LParen => {},
        _ => {
            return Err(EvalError::SyntaxError);
        },
    }
    let (cond, p) = match parse_expression(toks, pos + 2) {
        Ok(x) => x,
        Err(e) => {
            return Err(e);
        },
    };
    if p >= toks.len() {
        return Err(EvalError::SyntaxError);
    }
    match &toks[p] {
        Token::RParen => {},
        _ => {
            return Err(EvalError::SyntaxError);
        },
    }
    let (then_cl, p2) = match parse_line(toks, p + 1) {
        Ok(x) => x,
        Err(e) => {
            return Err(e);
        },
    };
    if p2 < toks.len() {
        match &toks[p2] {
            Token::KwElse => {
                let (else_cl, p3) = match parse_line(toks, p2 + 1) {
                    Ok(x) => x,
                    Err(e) => {
                        return Err(e);
                    },
                };
                return Ok((Ast::if_expr(cond, then_cl, Some(else_cl)), p3));
            },
            _ => {},
        }
    }
    Ok((Ast::if_expr(cond, then_cl, None), p2))
}

#[verifier::rlimit(100)]
#[verifier::spinoff_prover]
fn parse_while_line(toks: &Vec<Token>, pos: usize) -> (r: Result<(Expression, usize), EvalError>)
    requires
        pos < toks@.len(),
        tokens_view(toks@)[pos as int] is KwWhile,
    ensures
        r matches Ok(p) ==> pos < p.1 <= toks@.len(),
        r matches Err(e) ==> e == EvalError::SyntaxError,
        ({
            let d = parse_line_spec(tokens_view(toks@), pos as int);
            match r {
                Ok(p) => d == Some((expr_view(p.0), p.1 as int)),
                Err(_) => d is None,
            }
        }),
    decreases toks@.len() - pos, 6int,
{
    if pos >= toks.len() {
        return Err(EvalError::SyntaxError);
    }
    if pos + 1 >= toks.len() {
        return Err(EvalError::SyntaxError);
    }
    match &toks[pos + 1] {
        Token::LParen => {},
        _ => {
            return Err(EvalError::SyntaxError);
        },
    }
    let (cond, p) = match parse_expression(toks, pos + 2) {
        Ok(x) => x,
        Err(e) => {
            return Err(e);
        },
    };
    if p >= toks.len() {
        return Err(EvalError::SyntaxError);
    }
    match &toks[p] {
        Token::RParen => {},
        _ => {
            return Err(EvalError::SyntaxError);
        },
    }
    let (body, p2) = match parse_line(toks, p + 1) {
        Ok(x) => x,
        Err(e) => {
            return Err(e);
        },
    };
    Ok((Ast::while_expr(cond, body), p2))
}

/// Builds the node the grammar defines `for (v in a to b) body` to mean:
/// `v = a; while (v <= b) { body; v = v + 1; }`.
#[verifier::rlimit(100)]
#[verifier::spinoff_prover]
fn build_for_desugar(loop_var: String, from_e: Expression, to_e: Expression, body: Expression) -> (r: Expression)
    ensures
        expr_view(r) == for_desugar_spec(
            loop_var@,
            expr_view(from_e),
            expr_view(to_e),
            expr_view(body),
        ),
{
    let ghost body_v = expr_view(body);
    let ghost from_v = expr_view(from_e);
    let ghost to_v = expr_view(to_e);
    let ghost lv = loop_var@;
    let mut inner: Vec<Expression> = Vec::new();
    inner.push(body);
    inner.push(Ast::assignment(
        loop_var.clone(),
        Ast::add(Ast::symbol(loop_var.clone()), Ast::integer(1)),
    ));
    let mut outer: Vec<Expression> = Vec::new();
    outer.push(Ast::assignment(loop_var.clone(), from_e));
    outer.push(Ast::while_expr(
        Ast::less_or_equal(Ast::symbol(loop_var), to_e),
        Ast::block(inner),
    ));
    let result = Ast::block(outer);
    proof {
        reveal_with_fuel(expr_view, 6);
        let desugared = for_desugar_spec(lv, from_v, to_v, body_v);
        let incr_v = ExpressionView::Assignment {
            name: lv,
            expression: Box::new(
                ExpressionView::Binary {
                    operator: Operator::Add,
                    lhs: Box::new(ExpressionView::Identifier(lv)),
                    rhs: Box::new(ExpressionView::IntegerLiteral(1)),
                },
            ),
        };
        assert(expr_view(inner@[0]) == body_v);
        assert(expr_view(inner@[1]) == incr_v);
        assert(exprs_view(inner@) =~= seq![body_v, incr_v]);
        let assign_v = ExpressionView::Assignment { name: lv, expression: Box::new(from_v) };
        let while_v = ExpressionView::While {
            condition: Box::new(
                ExpressionView::Binary {
                    operator: Operator::LessOrEqual,
                    lhs: Box::new(ExpressionView::Identifier(lv)),
                    rhs: Box::new(to_v),
                },
            ),
            body: Box::new(ExpressionView::Block(seq![body_v, incr_v])),
        };
        assert(expr_view(outer@[0]) == assign_v);
        assert(expr_view(outer@[1]) == while_v);
        assert(exprs_view(outer@) =~= seq![assign_v, while_v]);
        assert(expr_view(result) == ExpressionView::Block(seq![assign_v, while_v]));
        assert(desugared == ExpressionView::Block(seq![assign_v, while_v]));
    }
    result
}

/// `for (v in a to b) body`, desugared as the grammar defines.
#[verifier::rlimit(100)]
#[verifier::spinoff_prover]
fn parse_for_line(toks: &Vec<Token>, pos: usize) -> (r: Result<(Expression, usize), EvalError>)
    requires
        pos < toks@.len(),
        tokens_view(toks@)[pos as int] is KwFor,
    ensures
        r matches Ok(p) ==> pos < p.1 <= toks@.len(),
        r matches Err(e) ==> e == EvalError::SyntaxError,
        ({
            let d = parse_line_spec(tokens_view(toks@), pos as int);
            match r {
                Ok(p) => d == Some((expr_view(p.0), p.1 as int)),
                Err(_) => d is None,
            }
        }),
    decreases toks@.len() - pos, 6int,
{
    if pos >= toks.len() {
        return Err(EvalError::SyntaxError);
    }
    // for (v in a to b) body, desugared to
    // v = a; while (v <= b) { body; v = v + 1; }
    if pos + 1 >= toks.len() {
        return Err(EvalError::SyntaxError);
    }
    if pos + 2 >= toks.len() {
        return Err(EvalError::SyntaxError);
    }
    if pos + 3 >= toks.len() {
        return Err(EvalError::SyntaxError);
    }
    match &toks[pos + 1] {
        Token::LParen => {},
        _ => {
            return Err(EvalError::SyntaxError);
        },
    }
    let loop_var = match &toks[pos + 2] {
        Token::Identifier(name) => name.clone(),
        _ => {
            return Err(EvalError::SyntaxError);
        },
    };
    match &toks[pos + 3] {
        Token::KwIn => {},
        _ => {
            return Err(EvalError::SyntaxError);
        },
    }
    let (from_e, p) = match parse_expression(toks, pos + 4) {
        Ok(x) => x,
        Err(e) => {
            return Err(e);
        },
    };
    if p >= toks.len() {
        return Err(EvalError::SyntaxError);
    }
    match &toks[p] {
        Token::KwTo => {},
        _ => {
            return Err(EvalError::SyntaxError);
        },
    }
    let (to_e, p2) = match parse_expression(toks, p + 1) {
        Ok(x) => x,
        Err(e) => {
            return Err(e);
        },
    };
    if p2 >= toks.len() {
        return Err(EvalError::SyntaxError);
    }
    match &toks[p2] {
        Token::RParen => {},
        _ => {
            return Err(EvalError::SyntaxError);
        },
    }
    let (body, p3) = match parse_line(toks, p2 + 1) {
        Ok(x) => x,
        Err(e) => {
            return Err(e);
        },
    };
    let result = build_for_desugar(loop_var, from_e, to_e, body);
    Ok((result, p3))
}

/// One statement line: `println`, `if`, `while`, `for`, a block, an
/// assignment, or a bare expression line — each ended as its form requires.
#[verifier::rlimit(100)]
#[verifier::spinoff_prover]
fn parse_line(toks: &Vec<Token>, pos: usize) -> (r: Result<(Expression, usize), EvalError>)
    requires
        pos <= toks@.len(),
    ensures
        r matches Ok(p) ==> pos < p.1 <= toks@.len(),
        r matches Err(e) ==> e == EvalError::SyntaxError,
        ({
            let d = parse_line_spec(tokens_view(toks@), pos as int);
            match r {
                Ok(p) => d == Some((expr_view(p.0), p.1 as int)),
                Err(_) => d is None,
            }
        }),
    decreases toks@.len() - pos, 7int,
{
    if pos >= toks.len() {
        return Err(EvalError::SyntaxError);
    }
    match &toks[pos] {
        Token::KwPrintln => parse_println_line(toks, pos),
        Token::KwIf => parse_if_line(toks, pos),
        Token::KwWhile => parse_while_line(toks, pos),
        Token::KwFor => parse_for_line(toks, pos),
        Token::LBrace => {
            proof {
                assert(exprs_view(Seq::<Expression>::empty()) =~= Seq::<ExpressionView>::empty());
            }
            let (elems, p) = match parse_block_lines(toks, pos + 1, Vec::new()) {
                Ok(x) => x,
                Err(e) => {
                    return Err(e);
                },
            };
            Ok((Ast::block(elems), p))
        },
        Token::Identifier(name) => {
            if pos + 1 < toks.len() {
                match &toks[pos + 1] {
                    Token::Assign => {
                        let (e, p) = match parse_expression(toks, pos + 2) {
                            Ok(x) => x,
                            Err(e) => {
                                return Err(e);
                            },
                        };
                        if p >= toks.len() {
                            return Err(EvalError::SyntaxError);
                        }
                        match &toks[p] {
                            Token::Semicolon => {
                                return Ok((Ast::assignment(name.clone(), e), p + 1));
                            },
                            _ => {
                                return Err(EvalError::SyntaxError);
                            },
                        }
                    },
                    _ => {},
                }
            }
            parse_expression_line(toks, pos)
        },
        _ => parse_expression_line(toks, pos),
    }
}

/// `expression ";"`
fn parse_expression_line(toks: &Vec<Token>, pos: usize) -> (r: Result<
    (Expression, usize),
    EvalError,
>)
    requires
        pos <= toks@.len(),
    ensures
        r matches Ok(p) ==> pos < p.1 <= toks@.len(),
        r matches Err(e) ==> e == EvalError::SyntaxError,
        ({
            let d = parse_expression_line_spec(tokens_view(toks@), pos as int);
            match r {
                Ok(p) => d == Some((expr_view(p.0), p.1 as int)),
                Err(_) => d is None,
            }
        }),
    decreases toks@.len() - pos, 6int,
{
    let (e, p) = match parse_expression(toks, pos) {
        Ok(x) => x,
        Err(e) => {
            return Err(e);
        },
    };
    if p >= toks.len() {
        return Err(EvalError::SyntaxError);
    }
    match &toks[p] {
        Token::Semicolon => Ok((e, p + 1)),
        _ => Err(EvalError::SyntaxError),
    }
}

/// The lines of a block, up to and including the closing brace.
fn parse_block_lines(toks: &Vec<Token>, pos: usize, elems: Vec<Expression>) -> (r: Result<
    (Vec<Expression>, usize),
    EvalError,
>)
    requires
        pos <= toks@.len(),
    ensures
        r matches Ok(p) ==> pos < p.1 <= toks@.len(),
        r matches Err(e) ==> e == EvalError::SyntaxError,
        ({
            let d = parse_block_lines_spec(tokens_view(toks@), pos as int, exprs_view(elems@));
            match r {
                Ok(p) => d == Some((exprs_view(p.0@), p.1 as int)),
                Err(_) => d is None,
            }
        }),
    decreases toks@.len() - pos, 8int,
{
    if pos >= toks.len() {
        return Err(EvalError::SyntaxError);
    }
    match &toks[pos] {
        Token::RBrace => Ok((elems, pos + 1)),
        _ => {
            let (e, p) = match parse_line(toks, pos) {
                Ok(x) => x,
                Err(e) => {
                    return Err(e);
                },
            };
            let ghost old_elems = elems@;
            let mut new_elems = elems;
            new_elems.push(e);
            proof {
                assert(exprs_view(new_elems@) =~= exprs_view(old_elems).push(expr_view(e)));
            }
            parse_block_lines(toks, p, new_elems)
        },
    }
}

/// The formal parameter names of a definition, up to and including the
/// closing parenthesis.
fn parse_param_names(toks: &Vec<Token>, pos: usize, names: Vec<String>) -> (r: Result<
    (Vec<String>, usize),
    EvalError,
>)
    requires
        pos <= toks@.len(),
    ensures
        r matches Ok(p) ==> pos < p.1 <= toks@.len(),
        r matches Err(e) ==> e == EvalError::SyntaxError,
        ({
            let d = parse_param_names_spec(tokens_view(toks@), pos as int, names_view(names@));
            match r {
                Ok(p) => d == Some((names_view(p.0@), p.1 as int)),
                Err(_) => d is None,
            }
        }),
    decreases toks@.len() - pos,
{
    if pos >= toks.len() {
        return Err(EvalError::SyntaxError);
    }
    match &toks[pos] {
        Token::RParen => Ok((names, pos + 1)),
        Token::Identifier(name) => {
            let ghost old_names = names@;
            let mut new_names = names;
            new_names.push(name.clone());
            proof {
                assert(names_view(new_names@) =~= names_view(old_names).push(name@));
            }
            if pos + 1 >= toks.len() {
                return Err(EvalError::SyntaxError);
            }
            match &toks[pos + 1] {
                Token::Comma => parse_param_names(toks, pos + 2, new_names),
                Token::RParen => Ok((new_names, pos + 2)),
                _ => Err(EvalError::SyntaxError),
            }
        },
        _ => Err(EvalError::SyntaxError),
    }
}

/// One top-level declaration: a function definition or a global variable.
#[verifier::rlimit(100)]
#[verifier::spinoff_prover]
fn parse_toplevel(toks: &Vec<Token>, pos: usize) -> (r: Result<(TopLevel, usize), EvalError>)
    requires
        pos <= toks@.len(),
    ensures
        r matches Ok(p) ==> pos < p.1 <= toks@.len(),
        r matches Err(e) ==> e == EvalError::SyntaxError,
        ({
            let d = parse_toplevel_spec(tokens_view(toks@), pos as int);
            match r {
                Ok(p) => d == Some((toplevel_view(p.0), p.1 as int)),
                Err(_) => d is None,
            }
        }),
    decreases toks@.len() - pos, 7int,
{
    if pos >= toks.len() {
        return Err(EvalError::SyntaxError);
    }
    match &toks[pos] {
        Token::KwDefine => {
            if pos + 1 >= toks.len() {
                return Err(EvalError::SyntaxError);
            }
            if pos + 2 >= toks.len() {
                return Err(EvalError::SyntaxError);
            }
            let name = match &toks[pos + 1] {
                Token::Identifier(n) => n.clone(),
                _ => {
                    return Err(EvalError::SyntaxError);
                },
            };
            match &toks[pos + 2] {
                Token::LParen => {},
                _ => {
                    return Err(EvalError::SyntaxError);
                },
            }
            proof {
                assert(names_view(Seq::<String>::empty()) =~= Seq::<Seq<char>>::empty());
            }
            let (params, p) = match parse_param_names(toks, pos + 3, Vec::new()) {
                Ok(x) => x,
                Err(e) => {
                    return Err(e);
                },
            };
            if p >= toks.len() {
                return Err(EvalError::SyntaxError);
            }
            match &toks[p] {
                Token::LBrace => {},
                _ => {
                    return Err(EvalError::SyntaxError);
                },
            }
            let (body, p2) = match parse_line(toks, p) {
                Ok(x) => x,
                Err(e) => {
                    return Err(e);
                },
            };
            Ok((Ast::define_function(name, params, body), p2))
        },
        Token::KwGlobal => {
            if pos + 1 >= toks.len() {
                return Err(EvalError::SyntaxError);
            }
            if pos + 2 >= toks.len() {
                return Err(EvalError::SyntaxError);
            }
            let name = match &toks[pos + 1] {
                Token::Identifier(n) => n.clone(),
                _ => {
                    return Err(EvalError::SyntaxError);
                },
            };
            match &toks[pos + 2] {
                Token::Assign => {},
                _ => {
                    return Err(EvalError::SyntaxError);
                },
            }
            let (e, p) = match parse_expression(toks, pos + 3) {
                Ok(x) => x,
                Err(e) => {
                    return Err(e);
                },
            };
            if p >= toks.len() {
                return Err(EvalError::SyntaxError);
            }
            match &toks[p] {
                Token::Semicolon => Ok((Ast::global_variable(name, e), p + 1)),
                _ => Err(EvalError::SyntaxError),
            }
        },
        _ => Err(EvalError::SyntaxError),
    }
}

fn parse_toplevels(toks: &Vec<Token>, pos: usize, defs: Vec<TopLevel>) -> (r: Result<
    Vec<TopLevel>,
    EvalError,
>)
    requires
        pos <= toks@.len(),
    ensures
        r matches Err(e) ==> e == EvalError::SyntaxError,
        ({
            let d = parse_toplevels_spec(tokens_view(toks@), pos as int, toplevels_view(defs@));
            match r {
                Ok(v) => d == Some(toplevels_view(v@)),
                Err(_) => d is None,
            }
        }),
    decreases toks@.len() - pos, 8int,
{
    if pos >= toks.len() {
        return Ok(defs);
    }
    let (d, p) = match parse_toplevel(toks, pos) {
        Ok(x) => x,
        Err(e) => {
            return Err(e);
        },
    };
    let ghost old_defs = defs@;
    let mut new_defs = defs;
    new_defs.push(d);
    proof {
        assert(toplevels_view(new_defs@) =~= toplevels_view(old_defs).push(toplevel_view(d)));
    }
    parse_toplevels(toks, p, new_defs)
}

fn parse_all_lines(toks: &Vec<Token>, pos: usize, lines: Vec<Expression>) -> (r: Result<
    Vec<Expression>,
    EvalError,
>)
    requires
        pos <= toks@.len(),
    ensures
        r matches Err(e) ==> e == EvalError::SyntaxError,
        ({
            let d = parse_all_lines_spec(tokens_view(toks@), pos as int, exprs_view(lines@));
            match r {
                Ok(v) => d == Some(exprs_view(v@)),
                Err(_) => d is None,
            }
        }),
    decreases toks@.len() - pos, 8int,
{
    if pos >= toks.len() {
        return Ok(lines);
    }
    let (e, p) = match parse_line(toks, pos) {
        Ok(x) => x,
        Err(e) => {
            return Err(e);
        },
    };
    let ghost old_lines = lines@;
    let mut new_lines = lines;
    new_lines.push(e);
    proof {
        assert(exprs_view(new_lines@) =~= exprs_view(old_lines).push(expr_view(e)));
    }
    parse_all_lines(toks, p, new_lines)
}

/// Parses a whole program: a sequence of top-level declarations.  Any text
/// outside the surface grammar of the language is rejected as `SyntaxError`;
/// no input makes this function panic.
pub fn parse(contents: &String) -> (r: Result<Program, EvalError>)
    ensures
        match program_ast(contents@) {
            Some(defs) => r matches Ok(p) && toplevels_view(p.definitions@) == defs,
            None => r == Err::<Program, EvalError>(EvalError::SyntaxError),
        },
{
    let toks = match tokenize(contents.as_str()) {
        Ok(t) => t,
        Err(e) => {
            return Err(e);
        },
    };
    proof {
        assert(toplevels_view(Seq::<TopLevel>::empty()) =~= Seq::<TopLevelView>::empty());
    }
    match parse_toplevels(&toks, 0, Vec::new()) {
        Ok(defs) => Ok(Program { definitions: defs }),
        Err(e) => Err(e),
    }
}

/// Parses a bare sequence of expression lines, for the line-mode driver.
pub fn parse_lines(contents: &String) -> (r: Result<Vec<Expression>, EvalError>)
    ensures
        match lines_ast(contents@) {
            Some(ls) => r matches Ok(v) && exprs_view(v@) == ls,
            None => r == Err::<Vec<Expression>, EvalError>(EvalError::SyntaxError),
        },
{
    let toks = match tokenize(contents.as_str()) {
        Ok(t) => t,
        Err(e) => {
            return Err(e);
        },
    };
    proof {
        assert(exprs_view(Seq::<Expression>::empty()) =~= Seq::<ExpressionView>::empty());
    }
    parse_all_lines(&toks, 0, Vec::new())
}

} // verus!
