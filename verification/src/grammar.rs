//! The grammar of the language, as functions from a text and a position to
//! what is read there and how many characters it takes.
//!
//! A choice takes the first alternative that reads something; a repetition
//! reads as long as its item does. Nothing reads past a failure.

use crate::ast::{
    BinaryOp, InfraConfig, Purity, SpecBlock, SpecExpr, SpecFunctionDef, SpecInfraCall,
    SpecLetStmt, SpecLiteral, SpecParam, SpecStatement, SpecTypeRef,
};
use vstd::prelude::*;

verus! {

/// What `char::is_alphanumeric` answers for `c`.
pub uninterp spec fn is_alphanumeric(c: char) -> bool;

/// `char::is_alphanumeric` tells whether the character is a letter or a
/// number of Unicode; the answer depends on the character alone. Of the
/// characters of ASCII, the letters of the English alphabet and the decimal
/// digits are the ones it accepts.
pub assume_specification[ char::is_alphanumeric ](c: char) -> (r: bool)
    ensures
        r == is_alphanumeric(c),
        c <= '\u{7f}' ==> r == (is_ascii_letter(c) || is_ascii_digit(c)),
;

/// The number of characters from `pos` to the end of the text.
pub open spec fn remaining(s: Seq<char>, pos: int) -> nat {
    if pos <= s.len() {
        (s.len() - pos) as nat
    } else {
        0
    }
}

/// The first of two alternatives that reads something.
pub open spec fn or_else<T>(first: Option<T>, second: Option<T>) -> Option<T> {
    if first is Some {
        first
    } else {
        second
    }
}

/// A blank, a tab, a carriage return or a line feed.
pub open spec fn is_space(c: char) -> bool {
    c == ' ' || c == '\t' || c == '\r' || c == '\n'
}

/// A letter of the English alphabet.
pub open spec fn is_ascii_letter(c: char) -> bool {
    ('a' <= c && c <= 'z') || ('A' <= c && c <= 'Z')
}

/// A decimal digit.
pub open spec fn is_ascii_digit(c: char) -> bool {
    '0' <= c && c <= '9'
}

/// What an identifier may start with.
pub open spec fn is_ident_start(c: char) -> bool {
    is_ascii_letter(c) || c == '_'
}

/// What an identifier may go on with: an underscore, a letter or a number.
/// Of the characters of ASCII these are the letters of the English alphabet
/// and the decimal digits; beyond ASCII, Unicode decides.
pub open spec fn is_ident_part(c: char) -> bool {
    c == '_' || if c <= '\u{7f}' {
        is_ascii_letter(c) || is_ascii_digit(c)
    } else {
        is_alphanumeric(c)
    }
}

/// The word itself, if the text holds it at `pos`. The empty word is
/// nowhere.
pub open spec fn lit(s: Seq<char>, pos: int, word: Seq<char>) -> Option<nat> {
    if word.len() > 0 && 0 <= pos && pos + word.len() <= s.len() && s.subrange(
        pos,
        pos + word.len(),
    ) == word {
        Some(word.len())
    } else {
        None
    }
}

/// The characters of a line from `pos` up to its end.
pub open spec fn line_rest(s: Seq<char>, pos: int) -> nat
    decreases remaining(s, pos),
{
    if 0 <= pos < s.len() && s[pos] != '\r' && s[pos] != '\n' {
        1 + line_rest(s, pos + 1)
    } else {
        0
    }
}

/// A comment: two slashes and the rest of the line. A carriage return that
/// no line feed follows does not end a line, and a comment that runs into
/// one is no comment.
pub open spec fn comment(s: Seq<char>, pos: int) -> Option<nat> {
    match lit(s, pos, "//"@) {
        None => None,
        Some(slashes) => {
            let body = line_rest(s, pos + slashes);
            let end = pos + slashes + body;
            if end < s.len() && s[end] == '\r' && !(end + 1 < s.len() && s[end + 1] == '\n') {
                None
            } else {
                Some(slashes + body)
            }
        },
    }
}

/// The white space and comments at `pos`.
#[verifier::opaque]
pub open spec fn skip(s: Seq<char>, pos: int) -> nat
    decreases remaining(s, pos),
{
    if 0 <= pos < s.len() && is_space(s[pos]) {
        1 + skip(s, pos + 1)
    } else {
        match comment(s, pos) {
            Some(n) => n + skip(s, pos + n),
            None => 0,
        }
    }
}

/// A word with the white space and comments on both sides of it.
pub open spec fn token(s: Seq<char>, pos: int, word: Seq<char>) -> Option<nat> {
    let lead = skip(s, pos);
    match lit(s, pos + lead, word) {
        Some(n) => Some(lead + n + skip(s, pos + lead + n)),
        None => None,
    }
}

/// A single character with the white space and comments on both sides of it.
pub open spec fn symbol(s: Seq<char>, pos: int, c: char) -> Option<nat> {
    token(s, pos, seq![c])
}

/// The characters from `pos` on that may continue an identifier.
pub open spec fn ident_rest(s: Seq<char>, pos: int) -> nat
    decreases remaining(s, pos),
{
    if 0 <= pos < s.len() && is_ident_part(s[pos]) {
        1 + ident_rest(s, pos + 1)
    } else {
        0
    }
}

/// The words that no identifier may be.
pub open spec fn is_keyword(word: Seq<char>) -> bool {
    word == "if"@ || word == "else"@ || word == "let"@ || word == "while"@ || word == "for"@
        || word == "in"@ || word == "by"@ || word == "scope"@ || word == "spawn"@ || word
        == "call"@ || word == "json"@ || word == "validate"@ || word == "true"@ || word
        == "false"@ || word == "return"@ || word == "nondeterministic"@ || word
        == "deterministic"@ || word == "fn"@ || word == "Untrusted"@ || word == "i64"@ || word
        == "Void"@
}

/// An identifier: an ASCII letter or an underscore, then letters, numbers
/// and underscores as far as they go; the whole is no keyword.
#[verifier::opaque]
pub open spec fn identifier(s: Seq<char>, pos: int) -> Option<(Seq<char>, nat)> {
    if 0 <= pos < s.len() && is_ident_start(s[pos]) {
        let n = 1 + ident_rest(s, pos + 1);
        let word = s.subrange(pos, pos + n);
        if is_keyword(word) {
            None
        } else {
            Some((word, n))
        }
    } else {
        None
    }
}

/// Two identifiers with a dot between them and nothing else.
#[verifier::opaque]
pub open spec fn dot_identifier(s: Seq<char>, pos: int) -> Option<(Seq<char>, nat)> {
    match identifier(s, pos) {
        None => None,
        Some((_, first)) => if pos + first < s.len() && s[pos + first] == '.' {
            match identifier(s, pos + first + 1) {
                None => None,
                Some((_, second)) => {
                    let n = first + 1 + second;
                    Some((s.subrange(pos, pos + n), n))
                },
            }
        } else {
            None
        },
    }
}

/// The decimal digits at `pos`.
pub open spec fn digits(s: Seq<char>, pos: int) -> nat
    decreases remaining(s, pos),
{
    if 0 <= pos < s.len() && is_ascii_digit(s[pos]) {
        1 + digits(s, pos + 1)
    } else {
        0
    }
}

/// The number that a sequence of decimal digits writes.
pub open spec fn decimal_value(d: Seq<char>) -> nat
    decreases d.len(),
{
    if d.len() == 0 {
        0
    } else {
        10 * decimal_value(d.drop_last()) + (d.last() as nat - '0' as nat) as nat
    }
}

/// A number: an optional minus sign and decimal digits, whose value fits
/// into 64 bits with a sign.
#[verifier::opaque]
pub open spec fn number(s: Seq<char>, pos: int) -> Option<(int, nat)> {
    let sign: nat = if 0 <= pos < s.len() && s[pos] == '-' {
        1
    } else {
        0
    };
    let n = digits(s, pos + sign);
    let magnitude = decimal_value(s.subrange(pos + sign, pos + sign + n));
    let value = if sign == 1 {
        -magnitude
    } else {
        magnitude as int
    };
    if n > 0 && i64::MIN <= value <= i64::MAX {
        Some((value, sign + n))
    } else {
        None
    }
}

/// The characters from `pos` up to the next double quote.
pub open spec fn until_quote(s: Seq<char>, pos: int) -> nat
    decreases remaining(s, pos),
{
    if 0 <= pos < s.len() && s[pos] != '"' {
        1 + until_quote(s, pos + 1)
    } else {
        0
    }
}

/// A string literal: what stands between two double quotes. There are no
/// escapes.
#[verifier::opaque]
pub open spec fn string_literal(s: Seq<char>, pos: int) -> Option<(Seq<char>, nat)> {
    if 0 <= pos < s.len() && s[pos] == '"' {
        let n = until_quote(s, pos + 1);
        if pos + 1 + n < s.len() {
            Some((s.subrange(pos + 1, pos + 1 + n), n + 2))
        } else {
            None
        }
    } else {
        None
    }
}

/// A type name, with the white space on both sides of it.
pub open spec fn parse_type(s: Seq<char>, pos: int) -> Option<(SpecTypeRef, nat)>
    decreases remaining(s, pos), 1nat,
{
    let lead = skip(s, pos);
    let at = pos + lead;
    let named: Option<(SpecTypeRef, nat)> = match lit(s, at, "Untrusted"@) {
        Some(n) => Some((SpecTypeRef::Untrusted, n)),
        None => match lit(s, at, "i64"@) {
            Some(n) => Some((SpecTypeRef::Integer, n)),
            None => match lit(s, at, "Void"@) {
                Some(n) => Some((SpecTypeRef::Void, n)),
                None => match array_type(s, at) {
                    Some(found) => Some(found),
                    None => match identifier(s, at) {
                        Some((name, n)) => Some((SpecTypeRef::Custom(name), n)),
                        None => None,
                    },
                },
            },
        },
    };
    match named {
        Some((t, n)) => Some((t, lead + n + skip(s, at + n))),
        None => None,
    }
}

/// `Array<T>`.
pub open spec fn array_type(s: Seq<char>, pos: int) -> Option<(SpecTypeRef, nat)>
    decreases remaining(s, pos), 0nat,
{
    match token(s, pos, "Array"@) {
        None => None,
        Some(n1) => match symbol(s, pos + n1, '<') {
            None => None,
            Some(n2) => match parse_type(s, pos + n1 + n2) {
                None => None,
                Some((inner, n3)) => match symbol(s, pos + n1 + n2 + n3, '>') {
                    None => None,
                    Some(n4) => Some((SpecTypeRef::Array(Box::new(inner)), n1 + n2 + n3 + n4)),
                },
            },
        },
    }
}

/// The time limit that a number of the text stands for: the number itself,
/// and a negative one counted down from two to the power of 64.
pub open spec fn timeout_of(n: int) -> u64 {
    if n >= 0 {
        n as u64
    } else {
        (n + 0x1_0000_0000_0000_0000) as u64
    }
}

/// `*` or `/`.
pub open spec fn factor_op(s: Seq<char>, pos: int) -> Option<(BinaryOp, nat)> {
    match symbol(s, pos, '*') {
        Some(n) => Some((BinaryOp::Mul, n)),
        None => match symbol(s, pos, '/') {
            Some(n) => Some((BinaryOp::Div, n)),
            None => None,
        },
    }
}

/// `+` or `-`.
pub open spec fn term_op(s: Seq<char>, pos: int) -> Option<(BinaryOp, nat)> {
    match symbol(s, pos, '+') {
        Some(n) => Some((BinaryOp::Add, n)),
        None => match symbol(s, pos, '-') {
            Some(n) => Some((BinaryOp::Sub, n)),
            None => None,
        },
    }
}

/// A comparison operator; the two-character ones are tried first.
pub open spec fn compare_op(s: Seq<char>, pos: int) -> Option<(BinaryOp, nat)> {
    match token(s, pos, "=="@) {
        Some(n) => Some((BinaryOp::Eq, n)),
        None => match token(s, pos, "!="@) {
            Some(n) => Some((BinaryOp::Neq, n)),
            None => match token(s, pos, ">="@) {
                Some(n) => Some((BinaryOp::Gte, n)),
                None => match token(s, pos, "<="@) {
                    Some(n) => Some((BinaryOp::Lte, n)),
                    None => match token(s, pos, ">"@) {
                        Some(n) => Some((BinaryOp::Gt, n)),
                        None => match token(s, pos, "<"@) {
                            Some(n) => Some((BinaryOp::Lt, n)),
                            None => None,
                        },
                    },
                },
            },
        },
    }
}

/// An expression: terms joined by comparison operators, grouped from the
/// left.
pub open spec fn parse_expr(s: Seq<char>, pos: int) -> Option<(SpecExpr, nat)>
    decreases remaining(s, pos), 10nat,
{
    match parse_term(s, pos) {
        None => None,
        Some((left, n)) => {
            let (e, more) = expr_tail(s, pos + n, left);
            Some((e, n + more))
        },
    }
}

/// What follows the first term of an expression: operator and term, as
/// long as both are there.
pub open spec fn expr_tail(s: Seq<char>, pos: int, left: SpecExpr) -> (SpecExpr, nat)
    decreases remaining(s, pos), 9nat,
{
    match compare_op(s, pos) {
        None => (left, 0),
        Some((op, n1)) => match parse_term(s, pos + n1) {
            None => (left, 0),
            Some((right, n2)) => {
                let (e, more) = expr_tail(
                    s,
                    pos + n1 + n2,
                    SpecExpr::Binary(Box::new(left), op, Box::new(right)),
                );
                (e, n1 + n2 + more)
            },
        },
    }
}

/// A term: factors joined by `+` and `-`, grouped from the left.
pub open spec fn parse_term(s: Seq<char>, pos: int) -> Option<(SpecExpr, nat)>
    decreases remaining(s, pos), 8nat,
{
    match parse_factor(s, pos) {
        None => None,
        Some((left, n)) => {
            let (e, more) = term_tail(s, pos + n, left);
            Some((e, n + more))
        },
    }
}

/// What follows the first factor of a term.
pub open spec fn term_tail(s: Seq<char>, pos: int, left: SpecExpr) -> (SpecExpr, nat)
    decreases remaining(s, pos), 7nat,
{
    match term_op(s, pos) {
        None => (left, 0),
        Some((op, n1)) => match parse_factor(s, pos + n1) {
            None => (left, 0),
            Some((right, n2)) => {
                let (e, more) = term_tail(
                    s,
                    pos + n1 + n2,
                    SpecExpr::Binary(Box::new(left), op, Box::new(right)),
                );
                (e, n1 + n2 + more)
            },
        },
    }
}

/// A factor: atoms joined by `*` and `/`, grouped from the left.
pub open spec fn parse_factor(s: Seq<char>, pos: int) -> Option<(SpecExpr, nat)>
    decreases remaining(s, pos), 6nat,
{
    match parse_atom(s, pos) {
        None => None,
        Some((left, n)) => {
            let (e, more) = factor_tail(s, pos + n, left);
            Some((e, n + more))
        },
    }
}

/// What follows the first atom of a factor.
pub open spec fn factor_tail(s: Seq<char>, pos: int, left: SpecExpr) -> (SpecExpr, nat)
    decreases remaining(s, pos), 5nat,
{
    match factor_op(s, pos) {
        None => (left, 0),
        Some((op, n1)) => match parse_atom(s, pos + n1) {
            None => (left, 0),
            Some((right, n2)) => {
                let (e, more) = factor_tail(
                    s,
                    pos + n1 + n2,
                    SpecExpr::Binary(Box::new(left), op, Box::new(right)),
                );
                (e, n1 + n2 + more)
            },
        },
    }
}

/// An atom: a primary expression and any number of indices in brackets.
pub open spec fn parse_atom(s: Seq<char>, pos: int) -> Option<(SpecExpr, nat)>
    decreases remaining(s, pos), 4nat,
{
    match parse_primary(s, pos) {
        None => None,
        Some((base, n)) => {
            let (e, more) = index_tail(s, pos + n, base);
            Some((e, n + more))
        },
    }
}

/// The indices in brackets behind a primary expression.
pub open spec fn index_tail(s: Seq<char>, pos: int, base: SpecExpr) -> (SpecExpr, nat)
    decreases remaining(s, pos), 3nat,
{
    match symbol(s, pos, '[') {
        None => (base, 0),
        Some(n1) => match parse_expr(s, pos + n1) {
            None => (base, 0),
            Some((index, n2)) => match symbol(s, pos + n1 + n2, ']') {
                None => (base, 0),
                Some(n3) => {
                    let (e, more) = index_tail(
                        s,
                        pos + n1 + n2 + n3,
                        SpecExpr::Index(Box::new(base), Box::new(index)),
                    );
                    (e, n1 + n2 + n3 + more)
                },
            },
        },
    }
}

/// A primary expression: the first that reads of a spawn, a service call,
/// a field access, a call, an array, a number, a string, `true`, `false`,
/// an identifier and an expression in parentheses.
pub open spec fn parse_primary(s: Seq<char>, pos: int) -> Option<(SpecExpr, nat)>
    decreases remaining(s, pos), 2nat,
{
    or_else(
        parse_spawn(s, pos),
        or_else(
            parse_infra_expr(s, pos),
            or_else(
                parse_json_field(s, pos),
                or_else(
                    parse_call_expr(s, pos),
                    or_else(
                        parse_array_literal(s, pos),
                        or_else(parse_plain(s, pos), parse_parenthesized(s, pos)),
                    ),
                ),
            ),
        ),
    )
}

/// A number, a string, `true`, `false` or an identifier, in this order.
#[verifier::opaque]
pub open spec fn parse_plain(s: Seq<char>, pos: int) -> Option<(SpecExpr, nat)> {
    match number(s, pos) {
        Some((value, n)) => Some((SpecExpr::Literal(SpecLiteral::Int(value)), n)),
        None => match string_literal(s, pos) {
            Some((text, n)) => Some((SpecExpr::Literal(SpecLiteral::Str(text)), n)),
            None => match lit(s, pos, "true"@) {
                Some(n) => Some((SpecExpr::Literal(SpecLiteral::Bool(true)), n)),
                None => match lit(s, pos, "false"@) {
                    Some(n) => Some((SpecExpr::Literal(SpecLiteral::Bool(false)), n)),
                    None => match identifier(s, pos) {
                        Some((name, n)) => Some((SpecExpr::Identifier(name), n)),
                        None => None,
                    },
                },
            },
        },
    }
}

/// An expression in parentheses.
pub open spec fn parse_parenthesized(s: Seq<char>, pos: int) -> Option<(SpecExpr, nat)>
    decreases remaining(s, pos), 1nat,
{
    match symbol(s, pos, '(') {
        None => None,
        Some(n1) => match parse_expr(s, pos + n1) {
            None => None,
            Some((e, n2)) => match symbol(s, pos + n1 + n2, ')') {
                None => None,
                Some(n3) => Some((e, n1 + n2 + n3)),
            },
        },
    }
}

/// `spawn` and an expression.
pub open spec fn parse_spawn(s: Seq<char>, pos: int) -> Option<(SpecExpr, nat)>
    decreases remaining(s, pos), 1nat,
{
    match token(s, pos, "spawn"@) {
        None => None,
        Some(n1) => match parse_expr(s, pos + n1) {
            None => None,
            Some((e, n2)) => Some((SpecExpr::Spawn(Box::new(e)), n1 + n2)),
        },
    }
}

/// Expressions separated by commas; none at all is a list too. A comma
/// that no expression follows is not part of the list.
pub open spec fn parse_args(s: Seq<char>, pos: int) -> (Seq<SpecExpr>, nat)
    decreases remaining(s, pos), 11nat,
{
    match parse_expr(s, pos) {
        None => (Seq::empty(), 0),
        Some((first, n)) => {
            let (all, more) = args_tail(s, pos + n, seq![first]);
            (all, n + more)
        },
    }
}

/// What follows the first expression of a list: comma and expression, as
/// long as both are there.
pub open spec fn args_tail(s: Seq<char>, pos: int, found: Seq<SpecExpr>) -> (Seq<SpecExpr>, nat)
    decreases remaining(s, pos), 0nat,
{
    match symbol(s, pos, ',') {
        None => (found, 0),
        Some(n1) => match parse_expr(s, pos + n1) {
            None => (found, 0),
            Some((next, n2)) => {
                let (all, more) = args_tail(s, pos + n1 + n2, found.push(next));
                (all, n1 + n2 + more)
            },
        },
    }
}

/// What opens a service call: `call service.method(`.
pub open spec fn infra_target(s: Seq<char>, pos: int) -> Option<((Seq<char>, Seq<char>), nat)> {
    match token(s, pos, "call"@) {
        None => None,
        Some(n1) => match identifier(s, pos + n1) {
            None => None,
            Some((service, n2)) => match symbol(s, pos + n1 + n2, '.') {
                None => None,
                Some(n3) => match identifier(s, pos + n1 + n2 + n3) {
                    None => None,
                    Some((method, n4)) => match symbol(s, pos + n1 + n2 + n3 + n4, '(') {
                        None => None,
                        Some(n5) => Some(((service, method), n1 + n2 + n3 + n4 + n5)),
                    },
                },
            },
        },
    }
}

/// `call service.method(args) { timeout: N }`.
pub open spec fn parse_infra_expr(s: Seq<char>, pos: int) -> Option<(SpecExpr, nat)>
    decreases remaining(s, pos), 1nat,
{
    match infra_target(s, pos) {
        None => None,
        Some(((service, method), n1)) => {
            let (args, n2) = parse_args(s, pos + n1);
            match infra_config(s, pos + n1 + n2) {
                None => None,
                Some((config, n3)) => Some(
                    (
                        SpecExpr::Infra(SpecInfraCall { service, method, args, config }),
                        n1 + n2 + n3,
                    ),
                ),
            }
        },
    }
}

/// What closes a service call: `) { timeout: N }`.
#[verifier::opaque]
pub open spec fn infra_config(s: Seq<char>, pos: int) -> Option<(InfraConfig, nat)> {
    match symbol(s, pos, ')') {
        None => None,
        Some(n1) => match symbol(s, pos + n1, '{') {
            None => None,
            Some(n2) => match token(s, pos + n1 + n2, "timeout"@) {
                None => None,
                Some(n3) => match symbol(s, pos + n1 + n2 + n3, ':') {
                    None => None,
                    Some(n4) => match number(s, pos + n1 + n2 + n3 + n4) {
                        None => None,
                        Some((limit, n5)) => match symbol(
                            s,
                            pos + n1 + n2 + n3 + n4 + n5,
                            '}',
                        ) {
                            None => None,
                            Some(n6) => Some(
                                (
                                    InfraConfig { timeout_ms: timeout_of(limit) },
                                    n1 + n2 + n3 + n4 + n5 + n6,
                                ),
                            ),
                        },
                    },
                },
            },
        },
    }
}

/// What opens a field access: `json(`.
pub open spec fn json_open(s: Seq<char>, pos: int) -> Option<nat> {
    match token(s, pos, "json"@) {
        None => None,
        Some(n1) => match symbol(s, pos + n1, '(') {
            None => None,
            Some(n2) => Some(n1 + n2),
        },
    }
}

/// `json(source, "key")`.
pub open spec fn parse_json_field(s: Seq<char>, pos: int) -> Option<(SpecExpr, nat)>
    decreases remaining(s, pos), 1nat,
{
    match json_open(s, pos) {
        None => None,
        Some(n1) => match parse_expr(s, pos + n1) {
            None => None,
            Some((source, n2)) => match json_key(s, pos + n1 + n2) {
                None => None,
                Some((key, n3)) => Some(
                    (SpecExpr::JsonField(Box::new(source), key), n1 + n2 + n3),
                ),
            },
        },
    }
}

/// What closes a field access: `, "key")`.
#[verifier::opaque]
pub open spec fn json_key(s: Seq<char>, pos: int) -> Option<(Seq<char>, nat)> {
    match symbol(s, pos, ',') {
        None => None,
        Some(n1) => {
            let lead = skip(s, pos + n1);
            match string_literal(s, pos + n1 + lead) {
                None => None,
                Some((key, n2)) => {
                    let trail = skip(s, pos + n1 + lead + n2);
                    match symbol(s, pos + n1 + lead + n2 + trail, ')') {
                        None => None,
                        Some(n3) => Some((key, n1 + lead + n2 + trail + n3)),
                    }
                },
            }
        },
    }
}

/// The name of a callee: two identifiers with a dot between them, or one.
pub open spec fn callee(s: Seq<char>, pos: int) -> Option<(Seq<char>, nat)> {
    or_else(dot_identifier(s, pos), identifier(s, pos))
}

/// What opens a call: the word `call` or not, the callee's name and an
/// opening parenthesis.
pub open spec fn call_target(s: Seq<char>, pos: int) -> Option<(Seq<char>, nat)> {
    let n1 = match token(s, pos, "call"@) {
        Some(n) => n,
        None => 0,
    };
    match callee(s, pos + n1) {
        None => None,
        Some((name, n2)) => match symbol(s, pos + n1 + n2, '(') {
            None => None,
            Some(n3) => Some((name, n1 + n2 + n3)),
        },
    }
}

/// A call: its opening, the arguments and a closing parenthesis.
pub open spec fn parse_call_expr(s: Seq<char>, pos: int) -> Option<(SpecExpr, nat)>
    decreases remaining(s, pos), 1nat,
{
    match call_target(s, pos) {
        None => None,
        Some((name, n1)) => {
            let (args, n2) = parse_args(s, pos + n1);
            match symbol(s, pos + n1 + n2, ')') {
                None => None,
                Some(n3) => Some((SpecExpr::Call(name, args), n1 + n2 + n3)),
            }
        },
    }
}

/// `[a, b, c]`.
pub open spec fn parse_array_literal(s: Seq<char>, pos: int) -> Option<(SpecExpr, nat)>
    decreases remaining(s, pos), 1nat,
{
    match symbol(s, pos, '[') {
        None => None,
        Some(n1) => {
            let (elems, n2) = parse_args(s, pos + n1);
            match symbol(s, pos + n1 + n2, ']') {
                None => None,
                Some(n3) => Some((SpecExpr::ArrayLiteral(elems), n1 + n2 + n3)),
            }
        },
    }
}

/// `let name = value`.
#[verifier::opaque]
pub open spec fn parse_let(s: Seq<char>, pos: int) -> Option<(SpecStatement, nat)> {
    match token(s, pos, "let"@) {
        None => None,
        Some(n1) => match identifier(s, pos + n1) {
            None => None,
            Some((name, n2)) => match symbol(s, pos + n1 + n2, '=') {
                None => None,
                Some(n3) => match parse_expr(s, pos + n1 + n2 + n3) {
                    None => None,
                    Some((value, n4)) => Some(
                        (SpecStatement::Let(SpecLetStmt { name, value }), n1 + n2 + n3 + n4),
                    ),
                },
            },
        },
    }
}

/// `name = value`.
#[verifier::opaque]
pub open spec fn parse_assign(s: Seq<char>, pos: int) -> Option<(SpecStatement, nat)> {
    match identifier(s, pos) {
        None => None,
        Some((name, n1)) => match symbol(s, pos + n1, '=') {
            None => None,
            Some(n2) => match parse_expr(s, pos + n1 + n2) {
                None => None,
                Some((value, n3)) => Some((SpecStatement::Assign { name, value }, n1 + n2 + n3)),
            },
        },
    }
}

/// `return`, with a value or without.
#[verifier::opaque]
pub open spec fn parse_return(s: Seq<char>, pos: int) -> Option<(SpecStatement, nat)> {
    match token(s, pos, "return"@) {
        None => None,
        Some(n1) => match parse_expr(s, pos + n1) {
            None => Some((SpecStatement::Return(None), n1)),
            Some((value, n2)) => Some((SpecStatement::Return(Some(value)), n1 + n2)),
        },
    }
}

/// An expression as a statement, and a semicolon if one follows.
#[verifier::opaque]
pub open spec fn parse_expr_stmt(s: Seq<char>, pos: int) -> Option<(SpecStatement, nat)> {
    match parse_expr(s, pos) {
        None => None,
        Some((e, n1)) => {
            let n2 = match symbol(s, pos + n1, ';') {
                Some(n) => n,
                None => 0,
            };
            Some((SpecStatement::ExprStmt(e), n1 + n2))
        },
    }
}

/// Statements between braces.
pub open spec fn parse_braced(s: Seq<char>, pos: int) -> Option<(SpecBlock, nat)>
    decreases remaining(s, pos), 0nat,
{
    match symbol(s, pos, '{') {
        None => None,
        Some(n1) => {
            let (statements, n2) = parse_block_content(s, pos + n1);
            match symbol(s, pos + n1 + n2, '}') {
                None => None,
                Some(n3) => Some((SpecBlock { statements }, n1 + n2 + n3)),
            }
        },
    }
}

/// `while condition { .. }`.
pub open spec fn parse_while(s: Seq<char>, pos: int) -> Option<(SpecStatement, nat)>
    decreases remaining(s, pos), 18nat,
{
    match token(s, pos, "while"@) {
        None => None,
        Some(n1) => match parse_expr(s, pos + n1) {
            None => None,
            Some((condition, n2)) => match parse_braced(s, pos + n1 + n2) {
                None => None,
                Some((body, n3)) => Some(
                    (SpecStatement::While { condition, body }, n1 + n2 + n3),
                ),
            },
        },
    }
}

/// What may follow the end of a `for` loop's range: `by` and a step.
pub open spec fn parse_step(s: Seq<char>, pos: int) -> Option<(SpecExpr, nat)> {
    match token(s, pos, "by"@) {
        None => None,
        Some(n1) => match parse_expr(s, pos + n1) {
            None => None,
            Some((step, n2)) => Some((step, n1 + n2)),
        },
    }
}

/// What stands before the body of a `for` loop.
pub struct ForHeader {
    pub var: Seq<char>,
    pub start: SpecExpr,
    pub end: SpecExpr,
    pub step: Option<SpecExpr>,
}

/// The range of a `for` loop: `start..end`, and `by step` or not.
pub open spec fn for_range(s: Seq<char>, pos: int) -> Option<
    ((SpecExpr, SpecExpr, Option<SpecExpr>), nat),
> {
    match parse_expr(s, pos) {
        None => None,
        Some((start, n1)) => match token(s, pos + n1, ".."@) {
            None => None,
            Some(n2) => match parse_expr(s, pos + n1 + n2) {
                None => None,
                Some((end, n3)) => match parse_step(s, pos + n1 + n2 + n3) {
                    Some((step, n4)) => Some(((start, end, Some(step)), n1 + n2 + n3 + n4)),
                    None => Some(((start, end, None), n1 + n2 + n3)),
                },
            },
        },
    }
}

/// `for var in` and the range.
#[verifier::opaque]
pub open spec fn for_header(s: Seq<char>, pos: int) -> Option<(ForHeader, nat)> {
    match token(s, pos, "for"@) {
        None => None,
        Some(n1) => match identifier(s, pos + n1) {
            None => None,
            Some((var, n2)) => match token(s, pos + n1 + n2, "in"@) {
                None => None,
                Some(n3) => match for_range(s, pos + n1 + n2 + n3) {
                    None => None,
                    Some(((start, end, step), n4)) => Some(
                        (ForHeader { var, start, end, step }, n1 + n2 + n3 + n4),
                    ),
                },
            },
        },
    }
}

/// `for var in start..end { .. }`, with `by step` before the body or
/// without.
pub open spec fn parse_for(s: Seq<char>, pos: int) -> Option<(SpecStatement, nat)>
    decreases remaining(s, pos), 18nat,
{
    match for_header(s, pos) {
        None => None,
        Some((header, n1)) => match parse_braced(s, pos + n1) {
            None => None,
            Some((body, n2)) => Some(
                (
                    SpecStatement::For {
                        var: header.var,
                        start: header.start,
                        end: header.end,
                        step: header.step,
                        body,
                    },
                    n1 + n2,
                ),
            ),
        },
    }
}

/// `if condition { .. }`, and after it nothing, `else { .. }` or `else`
/// and another `if`, which then is the only statement of the else branch.
pub open spec fn parse_if(s: Seq<char>, pos: int) -> Option<(SpecStatement, nat)>
    decreases remaining(s, pos), 18nat,
{
    match token(s, pos, "if"@) {
        None => None,
        Some(n1) => match parse_expr(s, pos + n1) {
            None => None,
            Some((condition, n2)) => match parse_braced(s, pos + n1 + n2) {
                None => None,
                Some((then_block, n3)) => {
                    let (else_block, n4) = match parse_else(s, pos + n1 + n2 + n3) {
                        Some((block, n)) => (Some(block), n),
                        None => (None, 0nat),
                    };
                    Some(
                        (
                            SpecStatement::If { condition, then_block, else_block },
                            n1 + n2 + n3 + n4,
                        ),
                    )
                },
            },
        },
    }
}

/// `else` and what it leads to: another `if`, or statements between braces.
pub open spec fn parse_else(s: Seq<char>, pos: int) -> Option<(SpecBlock, nat)>
    decreases remaining(s, pos), 17nat,
{
    match token(s, pos, "else"@) {
        None => None,
        Some(n1) => match parse_if(s, pos + n1) {
            Some((nested, n2)) => Some((SpecBlock { statements: seq![nested] }, n1 + n2)),
            None => match parse_braced(s, pos + n1) {
                Some((block, n2)) => Some((block, n1 + n2)),
                None => None,
            },
        },
    }
}

/// `scope name { .. }`.
pub open spec fn parse_scope(s: Seq<char>, pos: int) -> Option<(SpecStatement, nat)>
    decreases remaining(s, pos), 18nat,
{
    match token(s, pos, "scope"@) {
        None => None,
        Some(n1) => match identifier(s, pos + n1) {
            None => None,
            Some((name, n2)) => match parse_braced(s, pos + n1 + n2) {
                None => None,
                Some((body, n3)) => Some(
                    (SpecStatement::ScopeBlock { name, body }, n1 + n2 + n3),
                ),
            },
        },
    }
}

/// What stands before the success branch of a validation:
/// `validate target { success:`.
#[verifier::opaque]
pub open spec fn validate_header(s: Seq<char>, pos: int) -> Option<(Seq<char>, nat)> {
    match token(s, pos, "validate"@) {
        None => None,
        Some(n1) => match identifier(s, pos + n1) {
            None => None,
            Some((target, n2)) => match symbol(s, pos + n1 + n2, '{') {
                None => None,
                Some(n3) => match token(s, pos + n1 + n2 + n3, "success"@) {
                    None => None,
                    Some(n4) => match symbol(s, pos + n1 + n2 + n3 + n4, ':') {
                        None => None,
                        Some(n5) => Some((target, n1 + n2 + n3 + n4 + n5)),
                    },
                },
            },
        },
    }
}

/// `validate target { success: { .. } }`. The schema has one name and the
/// failure branch is empty: the text has no place for either.
pub open spec fn parse_validate(s: Seq<char>, pos: int) -> Option<(SpecStatement, nat)>
    decreases remaining(s, pos), 18nat,
{
    match validate_header(s, pos) {
        None => None,
        Some((target, n1)) => match parse_braced(s, pos + n1) {
            None => None,
            Some((success_scope, n2)) => match symbol(s, pos + n1 + n2, '}') {
                None => None,
                Some(n3) => Some(
                    (
                        SpecStatement::ValidateBlock {
                            target,
                            schema: "Schema"@,
                            on_fail: SpecBlock { statements: Seq::empty() },
                            success_scope,
                        },
                        n1 + n2 + n3,
                    ),
                ),
            },
        },
    }
}

/// A statement: the first that reads of a `let`, an `if`, a `while`, a
/// `for`, a scope, a validation, an assignment, a `return` and an
/// expression.
pub open spec fn parse_statement(s: Seq<char>, pos: int) -> Option<(SpecStatement, nat)>
    decreases remaining(s, pos), 19nat,
{
    or_else(
        parse_let(s, pos),
        or_else(
            parse_if(s, pos),
            or_else(
                parse_while(s, pos),
                or_else(
                    parse_for(s, pos),
                    or_else(
                        parse_scope(s, pos),
                        or_else(
                            parse_validate(s, pos),
                            or_else(
                                parse_assign(s, pos),
                                or_else(parse_return(s, pos), parse_expr_stmt(s, pos)),
                            ),
                        ),
                    ),
                ),
            ),
        ),
    )
}

/// The statements of a block, each with the white space on both sides of
/// it, as long as one reads.
pub open spec fn parse_block_content(s: Seq<char>, pos: int) -> (Seq<SpecStatement>, nat)
    decreases remaining(s, pos), 21nat,
{
    statements_from(s, pos, Seq::empty())
}

/// The statements from `pos` on, behind those that were `found` before. A
/// statement that takes nothing ends them.
pub open spec fn statements_from(s: Seq<char>, pos: int, found: Seq<SpecStatement>) -> (
    Seq<SpecStatement>,
    nat,
)
    decreases remaining(s, pos), 20nat,
{
    let lead = skip(s, pos);
    match parse_statement(s, pos + lead) {
        None => (found, 0),
        Some((statement, n)) => {
            let taken = lead + n + skip(s, pos + lead + n);
            if n > 0 && pos + taken <= s.len() {
                let (all, more) = statements_from(s, pos + taken, found.push(statement));
                (all, taken + more)
            } else {
                (found, 0)
            }
        },
    }
}

/// A parameter: `name: Type`.
#[verifier::opaque]
pub open spec fn parse_param(s: Seq<char>, pos: int) -> Option<(SpecParam, nat)> {
    let lead = skip(s, pos);
    match identifier(s, pos + lead) {
        None => None,
        Some((name, n1)) => {
            let named = lead + n1 + skip(s, pos + lead + n1);
            match symbol(s, pos + named, ':') {
                None => None,
                Some(n2) => match parse_type(s, pos + named + n2) {
                    None => None,
                    Some((param_type, n3)) => Some(
                        (SpecParam { name, param_type }, named + n2 + n3),
                    ),
                },
            }
        },
    }
}

/// Parameters separated by commas; none at all is a list too.
pub open spec fn parse_params(s: Seq<char>, pos: int) -> (Seq<SpecParam>, nat) {
    match parse_param(s, pos) {
        None => (Seq::empty(), 0),
        Some((first, n)) => {
            let (all, more) = params_tail(s, pos + n, seq![first]);
            (all, n + more)
        },
    }
}

/// What follows the first parameter of a list.
pub open spec fn params_tail(s: Seq<char>, pos: int, found: Seq<SpecParam>) -> (
    Seq<SpecParam>,
    nat,
)
    decreases remaining(s, pos),
{
    match symbol(s, pos, ',') {
        None => (found, 0),
        Some(n1) => match parse_param(s, pos + n1) {
            None => (found, 0),
            Some((next, n2)) => {
                let (all, more) = params_tail(s, pos + n1 + n2, found.push(next));
                (all, n1 + n2 + more)
            },
        },
    }
}

/// The tag that every declaration starts with.
#[verifier::opaque]
pub open spec fn parse_purity(s: Seq<char>, pos: int) -> Option<(Purity, nat)> {
    match token(s, pos, "deterministic"@) {
        Some(n) => Some((Purity::Deterministic, n)),
        None => match token(s, pos, "nondeterministic"@) {
            Some(n) => Some((Purity::Nondeterministic, n)),
            None => None,
        },
    }
}

/// What may follow the parameters: an arrow and the type of the result.
#[verifier::opaque]
pub open spec fn parse_return_type(s: Seq<char>, pos: int) -> Option<(SpecTypeRef, nat)> {
    match token(s, pos, "->"@) {
        None => None,
        Some(n1) => match parse_type(s, pos + n1) {
            None => None,
            Some((t, n2)) => Some((t, n1 + n2)),
        },
    }
}

/// Where a part of a declaration that is missing at `pos` was looked for:
/// behind the white space and comments there.
pub open spec fn expected_at(s: Seq<char>, pos: int) -> int {
    pos + skip(s, pos)
}

/// What stands before the parameters of a declaration: the tag, `fn`, the
/// name and an opening parenthesis. Where one of them is missing, the
/// result is the place where it was looked for.
#[verifier::opaque]
pub open spec fn function_head(s: Seq<char>, pos: int) -> Result<((Purity, Seq<char>), nat), int> {
    match parse_purity(s, pos) {
        None => Err(expected_at(s, pos)),
        Some((purity, n1)) => match token(s, pos + n1, "fn"@) {
            None => Err(expected_at(s, pos + n1)),
            Some(n2) => {
                let lead = skip(s, pos + n1 + n2);
                match identifier(s, pos + n1 + n2 + lead) {
                    None => Err(pos + n1 + n2 + lead),
                    Some((name, n3)) => {
                        let named = n1 + n2 + lead + n3 + skip(s, pos + n1 + n2 + lead + n3);
                        match symbol(s, pos + named, '(') {
                            None => Err(expected_at(s, pos + named)),
                            Some(n4) => Ok(((purity, name), named + n4)),
                        }
                    },
                }
            },
        }
    }
}

/// What follows the opening parenthesis of a declaration, up to its body:
/// the parameters, a closing parenthesis, and the result's type or none,
/// which stands for `Void`.
#[verifier::opaque]
pub open spec fn function_tail(s: Seq<char>, pos: int) -> Result<
    ((Seq<SpecParam>, SpecTypeRef), nat),
    int,
> {
    let (params, n1) = parse_params(s, pos);
    match symbol(s, pos + n1, ')') {
        None => Err(expected_at(s, pos + n1)),
        Some(n2) => match parse_return_type(s, pos + n1 + n2) {
            Some((t, n3)) => Ok(((params, t), n1 + n2 + n3)),
            None => Ok(((params, SpecTypeRef::Void), n1 + n2)),
        },
    }
}

/// The body of a declaration: statements between braces.
#[verifier::opaque]
pub open spec fn function_body(s: Seq<char>, pos: int) -> Result<(SpecBlock, nat), int> {
    match symbol(s, pos, '{') {
        None => Err(expected_at(s, pos)),
        Some(n1) => {
            let (statements, n2) = parse_block_content(s, pos + n1);
            match symbol(s, pos + n1 + n2, '}') {
                None => Err(expected_at(s, pos + n1 + n2)),
                Some(n3) => Ok((SpecBlock { statements }, n1 + n2 + n3)),
            }
        },
    }
}

/// A declaration: its head, its parameters and result, and its body. Where
/// a part is missing, the result is the place where it was looked for.
#[verifier::opaque]
pub open spec fn parse_function(s: Seq<char>, pos: int) -> Result<(SpecFunctionDef, nat), int> {
    match function_head(s, pos) {
        Err(at) => Err(at),
        Ok(((purity, name), n1)) => match function_tail(s, pos + n1) {
            Err(at) => Err(at),
            Ok(((params, return_type), n2)) => match function_body(s, pos + n1 + n2) {
                Err(at) => Err(at),
                Ok((body, n3)) => Ok(
                    (
                        SpecFunctionDef { name, purity, params, return_type, body },
                        n1 + n2 + n3,
                    ),
                ),
            },
        },
    }
}

/// The declarations from `pos` on, each with the white space on both sides
/// of it, as long as one reads.
pub open spec fn functions_from(s: Seq<char>, pos: int, found: Seq<SpecFunctionDef>) -> (
    Seq<SpecFunctionDef>,
    nat,
)
    decreases remaining(s, pos),
{
    let lead = skip(s, pos);
    match parse_function(s, pos + lead) {
        Err(_) => (found, 0),
        Ok((function, n)) => {
            let taken = lead + n + skip(s, pos + lead + n);
            if n > 0 && pos + taken <= s.len() {
                let (all, more) = functions_from(s, pos + taken, found.push(function));
                (all, taken + more)
            } else {
                (found, 0)
            }
        },
    }
}

/// A program: one declaration or more, from the start of the text. The text
/// behind the last declaration that reads is not looked at; the count says
/// where it starts. Where the first declaration does not read, the result
/// is the place where it stops.
pub open spec fn parse_program(s: Seq<char>) -> Result<(Seq<SpecFunctionDef>, nat), int> {
    let lead = skip(s, 0);
    match parse_function(s, lead as int) {
        Err(at) => Err(at),
        Ok((first, n)) => {
            let taken = lead + n + skip(s, (lead + n) as int);
            let (all, more) = functions_from(s, taken as int, seq![first]);
            Ok((all, taken + more))
        },
    }
}

} // verus!
