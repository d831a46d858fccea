//! The parser: it reads a text as the grammar says, and every function here
//! returns what the grammar's function of the same name describes.

use crate::ast::{
    exprs_view, lemma_expr_view, lemma_exprs_view_push, lemma_stmt_view, lemma_stmts_view_push,
    params_view, program_view, stmts_view, BinaryOp, Block, Expr, FunctionDef, InfraCall,
    InfraConfig, LetStmt, Literal, Param, Purity, SpecExpr, SpecFunctionDef, SpecParam,
    SpecStatement, Statement, TypeRef,
};
use crate::grammar;
use crate::text::chars_of;
use vstd::prelude::*;
use vstd::string::StrSliceExecFns;

verus! {

/// The failure to read the first declaration of a text.
#[derive(Debug, Clone, Copy, PartialEq, Eq, Structural)]
pub struct SyntaxError {
    /// The position, in characters, at which a part of the declaration was
    /// looked for and not found.
    pub offset: usize,
}

/// The characters of `cs` from `from` up to `to`, as a string.
fn text_of(cs: &Vec<char>, from: usize, to: usize) -> (text: String)
    requires
        from <= to <= cs.len(),
    ensures
        text@ == cs@.subrange(from as int, to as int),
{
    let mut text = String::new();
    let mut i = from;
    while i < to
        invariant
            from <= i <= to <= cs.len(),
            text@ == cs@.subrange(from as int, i as int),
        decreases to - i,
    {
        text.push(cs[i]);
        assert(cs@.subrange(from as int, i + 1) =~= cs@.subrange(from as int, i as int).push(
            cs@[i as int],
        ));
        i += 1;
    }
    text
}

fn lit(cs: &Vec<char>, pos: usize, word: &str) -> (r: Option<usize>)
    requires
        pos <= cs.len(),
    ensures
        match grammar::lit(cs@, pos as int, word@) {
            Some(n) => r == Some((pos + n) as usize) && pos + n <= cs.len(),
            None => r is None,
        },
{
    let mut at = pos;
    for c in it: word.chars()
        invariant
            it.seq() == word@,
            pos <= at <= cs.len(),
            at == pos + it.index(),
            forall|j: int| 0 <= j < it.index() ==> cs@[pos + j] == word@[j],
    {
        if at >= cs.len() || cs[at] != c {
            proof {
                let k = it.index() as int;
                if pos + word@.len() <= cs.len() {
                    assert(cs@.subrange(pos as int, pos + word@.len())[k] == cs@[pos + k]);
                }
            }
            return None;
        }
        at += 1;
    }
    if at == pos {
        return None;
    }
    assert(cs@.subrange(pos as int, at as int) =~= word@);
    Some(at)
}

/// Whether the characters from `from` up to `to` are the word.
fn word_is(cs: &Vec<char>, from: usize, to: usize, word: &str) -> (same: bool)
    requires
        from < to <= cs.len(),
    ensures
        same == (cs@.subrange(from as int, to as int) == word@),
{
    match lit(cs, from, word) {
        Some(end) => end == to,
        None => false,
    }
}

fn is_keyword(cs: &Vec<char>, from: usize, to: usize) -> (found: bool)
    requires
        from < to <= cs.len(),
    ensures
        found == grammar::is_keyword(cs@.subrange(from as int, to as int)),
{
    word_is(cs, from, to, "if") || word_is(cs, from, to, "else") || word_is(cs, from, to, "let")
        || word_is(cs, from, to, "while") || word_is(cs, from, to, "for") || word_is(
        cs,
        from,
        to,
        "in",
    ) || word_is(cs, from, to, "by") || word_is(cs, from, to, "scope") || word_is(
        cs,
        from,
        to,
        "spawn",
    ) || word_is(cs, from, to, "call") || word_is(cs, from, to, "json") || word_is(
        cs,
        from,
        to,
        "validate",
    ) || word_is(cs, from, to, "true") || word_is(cs, from, to, "false") || word_is(
        cs,
        from,
        to,
        "return",
    ) || word_is(cs, from, to, "nondeterministic") || word_is(cs, from, to, "deterministic")
        || word_is(cs, from, to, "fn") || word_is(cs, from, to, "Untrusted") || word_is(
        cs,
        from,
        to,
        "i64",
    ) || word_is(cs, from, to, "Void")
}

fn is_space(c: char) -> (r: bool)
    ensures
        r == grammar::is_space(c),
{
    c == ' ' || c == '\t' || c == '\r' || c == '\n'
}

fn is_ident_start(c: char) -> (r: bool)
    ensures
        r == grammar::is_ident_start(c),
{
    ('a' <= c && c <= 'z') || ('A' <= c && c <= 'Z') || c == '_'
}

fn is_ident_part(c: char) -> (r: bool)
    ensures
        r == grammar::is_ident_part(c),
{
    c.is_alphanumeric() || c == '_'
}

/// The end of the line that `pos` is in.
fn line_rest(cs: &Vec<char>, pos: usize) -> (end: usize)
    requires
        pos <= cs.len(),
    ensures
        end == pos + grammar::line_rest(cs@, pos as int),
        end <= cs.len(),
{
    let mut at = pos;
    while at < cs.len() && cs[at] != '\r' && cs[at] != '\n'
        invariant
            pos <= at <= cs.len(),
            at + grammar::line_rest(cs@, at as int) == pos + grammar::line_rest(cs@, pos as int),
        decreases cs.len() - at,
    {
        at += 1;
    }
    at
}

fn comment(cs: &Vec<char>, pos: usize) -> (r: Option<usize>)
    requires
        pos <= cs.len(),
    ensures
        match grammar::comment(cs@, pos as int) {
            Some(n) => r == Some((pos + n) as usize) && pos < pos + n <= cs.len(),
            None => r is None,
        },
{
    match lit(cs, pos, "//") {
        None => None,
        Some(body) => {
            let end = line_rest(cs, body);
            if end < cs.len() && cs[end] == '\r' && !(end + 1 < cs.len() && cs[end + 1] == '\n') {
                None
            } else {
                Some(end)
            }
        },
    }
}

/// The end of the white space and comments at `pos`.
fn sp(cs: &Vec<char>, pos: usize) -> (end: usize)
    requires
        pos <= cs.len(),
    ensures
        end == pos + grammar::skip(cs@, pos as int),
        end <= cs.len(),
{
    reveal(grammar::skip);
    let mut at = pos;
    let mut more = true;
    while more
        invariant
            pos <= at <= cs.len(),
            at + grammar::skip(cs@, at as int) == pos + grammar::skip(cs@, pos as int),
            !more ==> grammar::skip(cs@, at as int) == 0,
        decreases cs.len() - at, (if more { 1nat } else { 0nat }),
    {
        reveal(grammar::skip);
        if at < cs.len() && is_space(cs[at]) {
            at += 1;
        } else {
            match comment(cs, at) {
                Some(end) => {
                    at = end;
                },
                None => {
                    more = false;
                },
            }
        }
    }
    at
}

/// A word with the white space on both sides of it.
fn token(cs: &Vec<char>, pos: usize, word: &str) -> (r: Option<usize>)
    requires
        pos <= cs.len(),
    ensures
        match grammar::token(cs@, pos as int, word@) {
            Some(n) => r == Some((pos + n) as usize) && pos < pos + n <= cs.len(),
            None => r is None,
        },
{
    let start = sp(cs, pos);
    match lit(cs, start, word) {
        Some(end) => Some(sp(cs, end)),
        None => None,
    }
}

/// A character with the white space on both sides of it.
fn symbol(cs: &Vec<char>, pos: usize, c: char) -> (r: Option<usize>)
    requires
        pos <= cs.len(),
    ensures
        match grammar::symbol(cs@, pos as int, c) {
            Some(n) => r == Some((pos + n) as usize) && pos < pos + n <= cs.len(),
            None => r is None,
        },
{
    let start = sp(cs, pos);
    if start < cs.len() && cs[start] == c {
        assert(cs@.subrange(start as int, start + 1) =~= seq![c]);
        Some(sp(cs, start + 1))
    } else {
        proof {
            if start + 1 <= cs.len() {
                assert(cs@.subrange(start as int, start + 1)[0] == cs@[start as int]);
            }
        }
        None
    }
}

/// The end of the characters at `pos` that may continue an identifier.
fn ident_rest(cs: &Vec<char>, pos: usize) -> (end: usize)
    requires
        pos <= cs.len(),
    ensures
        end == pos + grammar::ident_rest(cs@, pos as int),
        end <= cs.len(),
{
    let mut at = pos;
    while at < cs.len() && is_ident_part(cs[at])
        invariant
            pos <= at <= cs.len(),
            at + grammar::ident_rest(cs@, at as int) == pos + grammar::ident_rest(
                cs@,
                pos as int,
            ),
        decreases cs.len() - at,
    {
        at += 1;
    }
    at
}

/// Where the identifier at `pos` ends, if one stands there.
fn identifier_end(cs: &Vec<char>, pos: usize) -> (r: Option<usize>)
    requires
        pos <= cs.len(),
    ensures
        match grammar::identifier(cs@, pos as int) {
            Some((_, n)) => r == Some((pos + n) as usize) && pos < pos + n <= cs.len(),
            None => r is None,
        },
{
    reveal(grammar::identifier);
    if pos < cs.len() && is_ident_start(cs[pos]) {
        let end = ident_rest(cs, pos + 1);
        if is_keyword(cs, pos, end) {
            None
        } else {
            Some(end)
        }
    } else {
        None
    }
}

fn identifier(cs: &Vec<char>, pos: usize) -> (r: Option<(String, usize)>)
    requires
        pos <= cs.len(),
    ensures
        match grammar::identifier(cs@, pos as int) {
            Some((name, n)) => r matches Some((text, end)) && text@ == name && end == pos + n
                && pos < end <= cs.len(),
            None => r is None,
        },
{
    reveal(grammar::identifier);
    match identifier_end(cs, pos) {
        Some(end) => Some((text_of(cs, pos, end), end)),
        None => None,
    }
}

fn dot_identifier(cs: &Vec<char>, pos: usize) -> (r: Option<(String, usize)>)
    requires
        pos <= cs.len(),
    ensures
        match grammar::dot_identifier(cs@, pos as int) {
            Some((name, n)) => r matches Some((text, end)) && text@ == name && end == pos + n
                && pos < end <= cs.len(),
            None => r is None,
        },
{
    reveal(grammar::dot_identifier);
    match identifier_end(cs, pos) {
        None => None,
        Some(dot) => {
            if dot < cs.len() && cs[dot] == '.' {
                match identifier_end(cs, dot + 1) {
                    None => None,
                    Some(end) => Some((text_of(cs, pos, end), end)),
                }
            } else {
                None
            }
        },
    }
}

/// The end of the string that starts behind the quote at `pos - 1`.
fn until_quote(cs: &Vec<char>, pos: usize) -> (end: usize)
    requires
        pos <= cs.len(),
    ensures
        end == pos + grammar::until_quote(cs@, pos as int),
        end <= cs.len(),
{
    let mut at = pos;
    while at < cs.len() && cs[at] != '"'
        invariant
            pos <= at <= cs.len(),
            at + grammar::until_quote(cs@, at as int) == pos + grammar::until_quote(
                cs@,
                pos as int,
            ),
        decreases cs.len() - at,
    {
        at += 1;
    }
    at
}

fn string_literal(cs: &Vec<char>, pos: usize) -> (r: Option<(String, usize)>)
    requires
        pos <= cs.len(),
    ensures
        match grammar::string_literal(cs@, pos as int) {
            Some((content, n)) => r matches Some((text, end)) && text@ == content && end == pos
                + n && pos < end <= cs.len(),
            None => r is None,
        },
{
    reveal(grammar::string_literal);
    if pos < cs.len() && cs[pos] == '"' {
        let close = until_quote(cs, pos + 1);
        if close < cs.len() {
            Some((text_of(cs, pos + 1, close), close + 1))
        } else {
            None
        }
    } else {
        None
    }
}

/// One more digit multiplies what the digits before it write by ten and
/// adds its own value.
proof fn lemma_decimal_step(s: Seq<char>, from: int, to: int)
    requires
        0 <= from <= to < s.len(),
    ensures
        grammar::decimal_value(s.subrange(from, to + 1)) == 10 * grammar::decimal_value(
            s.subrange(from, to),
        ) + (s[to] as nat - '0' as nat) as nat,
{
    assert(s.subrange(from, to + 1).drop_last() =~= s.subrange(from, to));
}

fn number(cs: &Vec<char>, pos: usize) -> (r: Option<(i64, usize)>)
    requires
        pos <= cs.len(),
    ensures
        match grammar::number(cs@, pos as int) {
            Some((value, n)) => r == Some((value as i64, (pos + n) as usize)) && pos < pos + n
                <= cs.len() && i64::MIN <= value <= i64::MAX,
            None => r is None,
        },
{
    reveal(grammar::number);
    let negative = pos < cs.len() && cs[pos] == '-';
    let start: usize = if negative {
        pos + 1
    } else {
        pos
    };
    let mut at = start;
    // What the digits so far write, unless it is beyond every value that fits.
    let mut magnitude: u128 = 0;
    let mut beyond = false;
    while at < cs.len() && '0' <= cs[at] && cs[at] <= '9'
        invariant
            start <= at <= cs.len(),
            at + grammar::digits(cs@, at as int) == start + grammar::digits(cs@, start as int),
            !beyond ==> magnitude == grammar::decimal_value(
                cs@.subrange(start as int, at as int),
            ) && magnitude <= 0x8000_0000_0000_0000,
            beyond ==> grammar::decimal_value(cs@.subrange(start as int, at as int))
                > 0x8000_0000_0000_0000,
        decreases cs.len() - at,
    {
        proof {
            lemma_decimal_step(cs@, start as int, at as int);
        }
        if !beyond {
            let digit: u128 = (cs[at] as u32 - '0' as u32) as u128;
            magnitude = magnitude * 10 + digit;
            if magnitude > 0x8000_0000_0000_0000 {
                beyond = true;
            }
        }
        at += 1;
    }
    if at == start || beyond {
        return None;
    }
    if negative {
        if magnitude == 0x8000_0000_0000_0000 {
            Some((i64::MIN, at))
        } else {
            Some((-(magnitude as i64), at))
        }
    } else if magnitude <= 0x7fff_ffff_ffff_ffff {
        Some((magnitude as i64, at))
    } else {
        None
    }
}

fn parse_type(cs: &Vec<char>, pos: usize) -> (r: Option<(TypeRef, usize)>)
    requires
        pos <= cs.len(),
    ensures
        match grammar::parse_type(cs@, pos as int) {
            Some((t, n)) => r matches Some((found, end)) && found@ == t && end == pos + n && pos
                < end <= cs.len(),
            None => r is None,
        },
    decreases cs.len() - pos, 1nat,
{
    let at = sp(cs, pos);
    let named: Option<(TypeRef, usize)> = match lit(cs, at, "Untrusted") {
        Some(end) => Some((TypeRef::Untrusted, end)),
        None => match lit(cs, at, "i64") {
            Some(end) => Some((TypeRef::Integer, end)),
            None => match lit(cs, at, "Void") {
                Some(end) => Some((TypeRef::Void, end)),
                None => match array_type(cs, at) {
                    Some(found) => Some(found),
                    None => match identifier(cs, at) {
                        Some((name, end)) => Some((TypeRef::Custom(name), end)),
                        None => None,
                    },
                },
            },
        },
    };
    match named {
        Some((t, end)) => Some((t, sp(cs, end))),
        None => None,
    }
}

fn array_type(cs: &Vec<char>, pos: usize) -> (r: Option<(TypeRef, usize)>)
    requires
        pos <= cs.len(),
    ensures
        match grammar::array_type(cs@, pos as int) {
            Some((t, n)) => r matches Some((found, end)) && found@ == t && end == pos + n && pos
                < end <= cs.len(),
            None => r is None,
        },
    decreases cs.len() - pos, 0nat,
{
    let at1 = token(cs, pos, "Array")?;
    let at2 = symbol(cs, at1, '<')?;
    let (inner, at3) = parse_type(cs, at2)?;
    let at4 = symbol(cs, at3, '>')?;
    Some((TypeRef::Array(Box::new(inner)), at4))
}

fn factor_op(cs: &Vec<char>, pos: usize) -> (r: Option<(BinaryOp, usize)>)
    requires
        pos <= cs.len(),
    ensures
        match grammar::factor_op(cs@, pos as int) {
            Some((op, n)) => r == Some((op, (pos + n) as usize)) && pos < pos + n <= cs.len(),
            None => r is None,
        },
{
    match symbol(cs, pos, '*') {
        Some(end) => Some((BinaryOp::Mul, end)),
        None => match symbol(cs, pos, '/') {
            Some(end) => Some((BinaryOp::Div, end)),
            None => None,
        },
    }
}

fn term_op(cs: &Vec<char>, pos: usize) -> (r: Option<(BinaryOp, usize)>)
    requires
        pos <= cs.len(),
    ensures
        match grammar::term_op(cs@, pos as int) {
            Some((op, n)) => r == Some((op, (pos + n) as usize)) && pos < pos + n <= cs.len(),
            None => r is None,
        },
{
    match symbol(cs, pos, '+') {
        Some(end) => Some((BinaryOp::Add, end)),
        None => match symbol(cs, pos, '-') {
            Some(end) => Some((BinaryOp::Sub, end)),
            None => None,
        },
    }
}

fn compare_op(cs: &Vec<char>, pos: usize) -> (r: Option<(BinaryOp, usize)>)
    requires
        pos <= cs.len(),
    ensures
        match grammar::compare_op(cs@, pos as int) {
            Some((op, n)) => r == Some((op, (pos + n) as usize)) && pos < pos + n <= cs.len(),
            None => r is None,
        },
{
    match token(cs, pos, "==") {
        Some(end) => Some((BinaryOp::Eq, end)),
        None => match token(cs, pos, "!=") {
            Some(end) => Some((BinaryOp::Neq, end)),
            None => match token(cs, pos, ">=") {
                Some(end) => Some((BinaryOp::Gte, end)),
                None => match token(cs, pos, "<=") {
                    Some(end) => Some((BinaryOp::Lte, end)),
                    None => match token(cs, pos, ">") {
                        Some(end) => Some((BinaryOp::Gt, end)),
                        None => match token(cs, pos, "<") {
                            Some(end) => Some((BinaryOp::Lt, end)),
                            None => None,
                        },
                    },
                },
            },
        },
    }
}

/// Whether `r` is what the grammar reads as an expression at `pos`.
spec fn reads_expr(
    r: Option<(Expr, usize)>,
    expected: Option<(SpecExpr, nat)>,
    pos: usize,
    len: usize,
) -> bool {
    match expected {
        Some((e, n)) => r matches Some((found, end)) && found@ == e && end == pos + n && end
            <= len,
        None => r is None,
    }
}

fn parse_expr(cs: &Vec<char>, pos: usize) -> (r: Option<(Expr, usize)>)
    requires
        pos <= cs.len(),
    ensures
        reads_expr(r, grammar::parse_expr(cs@, pos as int), pos, cs.len()),
    decreases cs.len() - pos, 10nat,
{
    let (first, start) = parse_term(cs, pos)?;
    let ghost goal = grammar::expr_tail(cs@, start as int, first@);
    let mut left = first;
    let mut at = start;
    let mut more = true;
    while more
        invariant
            pos <= start <= at <= cs.len(),
            grammar::expr_tail(cs@, at as int, left@).0 == goal.0,
            (at - start) + grammar::expr_tail(cs@, at as int, left@).1 == goal.1,
            !more ==> grammar::expr_tail(cs@, at as int, left@).1 == 0,
            !more ==> grammar::expr_tail(cs@, at as int, left@).0 == left@,
        decreases cs.len() - at, (if more { 1nat } else { 0nat }),
    {
        more = false;
        if let Some((op, after)) = compare_op(cs, at) {
            if let Some((right, end)) = parse_term(cs, after) {
                left = Expr::Binary(Box::new(left), op, Box::new(right));
                proof {
                    lemma_expr_view(left);
                }
                at = end;
                more = true;
            }
        }
    }
    Some((left, at))
}

fn parse_term(cs: &Vec<char>, pos: usize) -> (r: Option<(Expr, usize)>)
    requires
        pos <= cs.len(),
    ensures
        reads_expr(r, grammar::parse_term(cs@, pos as int), pos, cs.len()),
    decreases cs.len() - pos, 8nat,
{
    let (first, start) = parse_factor(cs, pos)?;
    let ghost goal = grammar::term_tail(cs@, start as int, first@);
    let mut left = first;
    let mut at = start;
    let mut more = true;
    while more
        invariant
            pos <= start <= at <= cs.len(),
            grammar::term_tail(cs@, at as int, left@).0 == goal.0,
            (at - start) + grammar::term_tail(cs@, at as int, left@).1 == goal.1,
            !more ==> grammar::term_tail(cs@, at as int, left@).1 == 0,
            !more ==> grammar::term_tail(cs@, at as int, left@).0 == left@,
        decreases cs.len() - at, (if more { 1nat } else { 0nat }),
    {
        more = false;
        if let Some((op, after)) = term_op(cs, at) {
            if let Some((right, end)) = parse_factor(cs, after) {
                left = Expr::Binary(Box::new(left), op, Box::new(right));
                proof {
                    lemma_expr_view(left);
                }
                at = end;
                more = true;
            }
        }
    }
    Some((left, at))
}

fn parse_factor(cs: &Vec<char>, pos: usize) -> (r: Option<(Expr, usize)>)
    requires
        pos <= cs.len(),
    ensures
        reads_expr(r, grammar::parse_factor(cs@, pos as int), pos, cs.len()),
    decreases cs.len() - pos, 6nat,
{
    let (first, start) = parse_atom(cs, pos)?;
    let ghost goal = grammar::factor_tail(cs@, start as int, first@);
    let mut left = first;
    let mut at = start;
    let mut more = true;
    while more
        invariant
            pos <= start <= at <= cs.len(),
            grammar::factor_tail(cs@, at as int, left@).0 == goal.0,
            (at - start) + grammar::factor_tail(cs@, at as int, left@).1 == goal.1,
            !more ==> grammar::factor_tail(cs@, at as int, left@).1 == 0,
            !more ==> grammar::factor_tail(cs@, at as int, left@).0 == left@,
        decreases cs.len() - at, (if more { 1nat } else { 0nat }),
    {
        more = false;
        if let Some((op, after)) = factor_op(cs, at) {
            if let Some((right, end)) = parse_atom(cs, after) {
                left = Expr::Binary(Box::new(left), op, Box::new(right));
                proof {
                    lemma_expr_view(left);
                }
                at = end;
                more = true;
            }
        }
    }
    Some((left, at))
}

fn parse_atom(cs: &Vec<char>, pos: usize) -> (r: Option<(Expr, usize)>)
    requires
        pos <= cs.len(),
    ensures
        reads_expr(r, grammar::parse_atom(cs@, pos as int), pos, cs.len()),
    decreases cs.len() - pos, 4nat,
{
    let (first, start) = parse_primary(cs, pos)?;
    let ghost goal = grammar::index_tail(cs@, start as int, first@);
    let mut base = first;
    let mut at = start;
    let mut more = true;
    while more
        invariant
            pos <= start <= at <= cs.len(),
            grammar::index_tail(cs@, at as int, base@).0 == goal.0,
            (at - start) + grammar::index_tail(cs@, at as int, base@).1 == goal.1,
            !more ==> grammar::index_tail(cs@, at as int, base@).1 == 0,
            !more ==> grammar::index_tail(cs@, at as int, base@).0 == base@,
        decreases cs.len() - at, (if more { 1nat } else { 0nat }),
    {
        more = false;
        if let Some(open) = symbol(cs, at, '[') {
            if let Some((index, close)) = parse_expr(cs, open) {
                if let Some(end) = symbol(cs, close, ']') {
                    base = Expr::Index(Box::new(base), Box::new(index));
                    proof {
                        lemma_expr_view(base);
                    }
                    at = end;
                    more = true;
                }
            }
        }
    }
    Some((base, at))
}

fn parse_plain(cs: &Vec<char>, pos: usize) -> (r: Option<(Expr, usize)>)
    requires
        pos <= cs.len(),
    ensures
        reads_expr(r, grammar::parse_plain(cs@, pos as int), pos, cs.len()),
{
    reveal(grammar::parse_plain);
    let (node, end) = if let Some((value, end)) = number(cs, pos) {
        (Expr::Literal(Literal::Int(value)), end)
    } else if let Some((text, end)) = string_literal(cs, pos) {
        (Expr::Literal(Literal::Str(text)), end)
    } else if let Some(end) = lit(cs, pos, "true") {
        (Expr::Literal(Literal::Bool(true)), end)
    } else if let Some(end) = lit(cs, pos, "false") {
        (Expr::Literal(Literal::Bool(false)), end)
    } else {
        let (name, end) = identifier(cs, pos)?;
        (Expr::Identifier(name), end)
    };
    proof {
        lemma_expr_view(node);
    }
    Some((node, end))
}

fn parse_primary(cs: &Vec<char>, pos: usize) -> (r: Option<(Expr, usize)>)
    requires
        pos <= cs.len(),
    ensures
        reads_expr(r, grammar::parse_primary(cs@, pos as int), pos, cs.len()),
    decreases cs.len() - pos, 2nat,
{
    if let Some(found) = parse_spawn(cs, pos) {
        return Some(found);
    }
    if let Some(found) = parse_infra_expr(cs, pos) {
        return Some(found);
    }
    if let Some(found) = parse_json_field(cs, pos) {
        return Some(found);
    }
    if let Some(found) = parse_call_expr(cs, pos) {
        return Some(found);
    }
    if let Some(found) = parse_array_literal(cs, pos) {
        return Some(found);
    }
    if let Some(found) = parse_plain(cs, pos) {
        return Some(found);
    }
    parse_parenthesized(cs, pos)
}

fn parse_parenthesized(cs: &Vec<char>, pos: usize) -> (r: Option<(Expr, usize)>)
    requires
        pos <= cs.len(),
    ensures
        reads_expr(r, grammar::parse_parenthesized(cs@, pos as int), pos, cs.len()),
    decreases cs.len() - pos, 1nat,
{
    let at1 = symbol(cs, pos, '(')?;
    let (e, at2) = parse_expr(cs, at1)?;
    let at3 = symbol(cs, at2, ')')?;
    Some((e, at3))
}

fn parse_spawn(cs: &Vec<char>, pos: usize) -> (r: Option<(Expr, usize)>)
    requires
        pos <= cs.len(),
    ensures
        reads_expr(r, grammar::parse_spawn(cs@, pos as int), pos, cs.len()),
    decreases cs.len() - pos, 1nat,
{
    let at1 = token(cs, pos, "spawn")?;
    let (e, at2) = parse_expr(cs, at1)?;
    let node = Expr::Spawn(Box::new(e));
    proof {
        lemma_expr_view(node);
    }
    Some((node, at2))
}

/// The expressions of a list, and where the list ends.
fn parse_args(cs: &Vec<char>, pos: usize) -> (r: (Vec<Expr>, usize))
    requires
        pos <= cs.len(),
    ensures
        exprs_view(r.0@) == grammar::parse_args(cs@, pos as int).0,
        r.1 == pos + grammar::parse_args(cs@, pos as int).1,
        r.1 <= cs.len(),
    decreases cs.len() - pos, 11nat,
{
    let mut found: Vec<Expr> = Vec::new();
    let (first, start) = match parse_expr(cs, pos) {
        Some(read) => read,
        None => {
            return (found, pos);
        },
    };
    proof {
        lemma_exprs_view_push(found@, first);
    }
    found.push(first);
    let ghost goal = grammar::args_tail(cs@, start as int, exprs_view(found@));
    let mut at = start;
    let mut more = true;
    while more
        invariant
            pos <= start <= at <= cs.len(),
            grammar::args_tail(cs@, at as int, exprs_view(found@)).0 == goal.0,
            (at - start) + grammar::args_tail(cs@, at as int, exprs_view(found@)).1 == goal.1,
            !more ==> grammar::args_tail(cs@, at as int, exprs_view(found@)).1 == 0,
            !more ==> grammar::args_tail(cs@, at as int, exprs_view(found@)).0 == exprs_view(
                found@,
            ),
        decreases cs.len() - at, (if more { 1nat } else { 0nat }),
    {
        more = false;
        if let Some(after) = symbol(cs, at, ',') {
            if let Some((next, end)) = parse_expr(cs, after) {
                proof {
                    lemma_exprs_view_push(found@, next);
                }
                found.push(next);
                at = end;
                more = true;
            }
        }
    }
    (found, at)
}

/// The time limit that a number of the text stands for.
fn timeout_of(limit: i64) -> (ms: u64)
    ensures
        ms == grammar::timeout_of(limit as int),
{
    if limit >= 0 {
        limit as u64
    } else {
        // Counted down from the top: -1 is the largest value.
        u64::MAX - ((-(limit + 1)) as u64)
    }
}

fn infra_config(cs: &Vec<char>, pos: usize) -> (r: Option<(InfraConfig, usize)>)
    requires
        pos <= cs.len(),
    ensures
        match grammar::infra_config(cs@, pos as int) {
            Some((config, n)) => r == Some((config, (pos + n) as usize)) && pos + n <= cs.len(),
            None => r is None,
        },
{
    reveal(grammar::infra_config);
    let at1 = symbol(cs, pos, ')')?;
    let at2 = symbol(cs, at1, '{')?;
    let at3 = token(cs, at2, "timeout")?;
    let at4 = symbol(cs, at3, ':')?;
    let (limit, at5) = number(cs, at4)?;
    let at6 = symbol(cs, at5, '}')?;
    Some((InfraConfig { timeout_ms: timeout_of(limit) }, at6))
}

fn infra_target(cs: &Vec<char>, pos: usize) -> (r: Option<((String, String), usize)>)
    requires
        pos <= cs.len(),
    ensures
        match grammar::infra_target(cs@, pos as int) {
            Some(((service, method), n)) => r matches Some(((s, m), end)) && s@ == service && m@
                == method && end == pos + n && pos < end <= cs.len(),
            None => r is None,
        },
{
    let at1 = token(cs, pos, "call")?;
    let (service, at2) = identifier(cs, at1)?;
    let at3 = symbol(cs, at2, '.')?;
    let (method, at4) = identifier(cs, at3)?;
    let at5 = symbol(cs, at4, '(')?;
    Some(((service, method), at5))
}

fn parse_infra_expr(cs: &Vec<char>, pos: usize) -> (r: Option<(Expr, usize)>)
    requires
        pos <= cs.len(),
    ensures
        reads_expr(r, grammar::parse_infra_expr(cs@, pos as int), pos, cs.len()),
    decreases cs.len() - pos, 1nat,
{
    let ((service, method), at1) = infra_target(cs, pos)?;
    let (args, at2) = parse_args(cs, at1);
    let (config, at3) = infra_config(cs, at2)?;
    let node = Expr::Infra(InfraCall { service, method, args, config });
    proof {
        lemma_expr_view(node);
    }
    Some((node, at3))
}

fn json_key(cs: &Vec<char>, pos: usize) -> (r: Option<(String, usize)>)
    requires
        pos <= cs.len(),
    ensures
        match grammar::json_key(cs@, pos as int) {
            Some((key, n)) => r matches Some((text, end)) && text@ == key && end == pos + n
                && end <= cs.len(),
            None => r is None,
        },
{
    reveal(grammar::json_key);
    let at1 = symbol(cs, pos, ',')?;
    let at2 = sp(cs, at1);
    let (key, at3) = string_literal(cs, at2)?;
    let at4 = sp(cs, at3);
    let at5 = symbol(cs, at4, ')')?;
    Some((key, at5))
}

fn json_open(cs: &Vec<char>, pos: usize) -> (r: Option<usize>)
    requires
        pos <= cs.len(),
    ensures
        match grammar::json_open(cs@, pos as int) {
            Some(n) => r == Some((pos + n) as usize) && pos < pos + n <= cs.len(),
            None => r is None,
        },
{
    let at1 = token(cs, pos, "json")?;
    symbol(cs, at1, '(')
}

fn parse_json_field(cs: &Vec<char>, pos: usize) -> (r: Option<(Expr, usize)>)
    requires
        pos <= cs.len(),
    ensures
        reads_expr(r, grammar::parse_json_field(cs@, pos as int), pos, cs.len()),
    decreases cs.len() - pos, 1nat,
{
    let at1 = json_open(cs, pos)?;
    let (source, at2) = parse_expr(cs, at1)?;
    let (key, at3) = json_key(cs, at2)?;
    let node = Expr::JsonField(Box::new(source), key);
    proof {
        lemma_expr_view(node);
    }
    Some((node, at3))
}

fn callee(cs: &Vec<char>, pos: usize) -> (r: Option<(String, usize)>)
    requires
        pos <= cs.len(),
    ensures
        match grammar::callee(cs@, pos as int) {
            Some((name, n)) => r matches Some((text, end)) && text@ == name && end == pos + n
                && pos < end <= cs.len(),
            None => r is None,
        },
{
    match dot_identifier(cs, pos) {
        Some(found) => Some(found),
        None => identifier(cs, pos),
    }
}

fn call_target(cs: &Vec<char>, pos: usize) -> (r: Option<(String, usize)>)
    requires
        pos <= cs.len(),
    ensures
        match grammar::call_target(cs@, pos as int) {
            Some((name, n)) => r matches Some((text, end)) && text@ == name && end == pos + n
                && pos < end <= cs.len(),
            None => r is None,
        },
{
    let at1 = match token(cs, pos, "call") {
        Some(end) => end,
        None => pos,
    };
    let (name, at2) = callee(cs, at1)?;
    let at3 = symbol(cs, at2, '(')?;
    Some((name, at3))
}

fn parse_call_expr(cs: &Vec<char>, pos: usize) -> (r: Option<(Expr, usize)>)
    requires
        pos <= cs.len(),
    ensures
        reads_expr(r, grammar::parse_call_expr(cs@, pos as int), pos, cs.len()),
    decreases cs.len() - pos, 1nat,
{
    let (name, at1) = call_target(cs, pos)?;
    let (args, at2) = parse_args(cs, at1);
    let at3 = symbol(cs, at2, ')')?;
    let node = Expr::Call(name, args);
    proof {
        lemma_expr_view(node);
    }
    Some((node, at3))
}

fn parse_array_literal(cs: &Vec<char>, pos: usize) -> (r: Option<(Expr, usize)>)
    requires
        pos <= cs.len(),
    ensures
        reads_expr(r, grammar::parse_array_literal(cs@, pos as int), pos, cs.len()),
    decreases cs.len() - pos, 1nat,
{
    let at1 = symbol(cs, pos, '[')?;
    let (elems, at2) = parse_args(cs, at1);
    let at3 = symbol(cs, at2, ']')?;
    let node = Expr::ArrayLiteral(elems);
    proof {
        lemma_expr_view(node);
    }
    Some((node, at3))
}

/// Whether `r` is what the grammar reads as a statement at `pos`.
spec fn reads_stmt(
    r: Option<(Statement, usize)>,
    expected: Option<(SpecStatement, nat)>,
    pos: usize,
    len: usize,
) -> bool {
    match expected {
        Some((s, n)) => r matches Some((found, end)) && found@ == s && end == pos + n && end
            <= len,
        None => r is None,
    }
}

fn parse_let(cs: &Vec<char>, pos: usize) -> (r: Option<(Statement, usize)>)
    requires
        pos <= cs.len(),
    ensures
        reads_stmt(r, grammar::parse_let(cs@, pos as int), pos, cs.len()),
{
    reveal(grammar::parse_let);
    let at1 = token(cs, pos, "let")?;
    let (name, at2) = identifier(cs, at1)?;
    let at3 = symbol(cs, at2, '=')?;
    let (value, at4) = parse_expr(cs, at3)?;
    let node = Statement::Let(LetStmt { name, value });
    proof {
        lemma_stmt_view(node);
    }
    Some((node, at4))
}

fn parse_assign(cs: &Vec<char>, pos: usize) -> (r: Option<(Statement, usize)>)
    requires
        pos <= cs.len(),
    ensures
        reads_stmt(r, grammar::parse_assign(cs@, pos as int), pos, cs.len()),
{
    reveal(grammar::parse_assign);
    let (name, at1) = identifier(cs, pos)?;
    let at2 = symbol(cs, at1, '=')?;
    let (value, at3) = parse_expr(cs, at2)?;
    let node = Statement::Assign { name, value };
    proof {
        lemma_stmt_view(node);
    }
    Some((node, at3))
}

fn parse_return(cs: &Vec<char>, pos: usize) -> (r: Option<(Statement, usize)>)
    requires
        pos <= cs.len(),
    ensures
        reads_stmt(r, grammar::parse_return(cs@, pos as int), pos, cs.len()),
{
    reveal(grammar::parse_return);
    let at1 = token(cs, pos, "return")?;
    let (node, end) = match parse_expr(cs, at1) {
        Some((value, at2)) => (Statement::Return(Some(value)), at2),
        None => (Statement::Return(None), at1),
    };
    proof {
        lemma_stmt_view(node);
    }
    Some((node, end))
}

fn parse_expr_stmt(cs: &Vec<char>, pos: usize) -> (r: Option<(Statement, usize)>)
    requires
        pos <= cs.len(),
    ensures
        reads_stmt(r, grammar::parse_expr_stmt(cs@, pos as int), pos, cs.len()),
{
    reveal(grammar::parse_expr_stmt);
    let (e, at1) = parse_expr(cs, pos)?;
    let at2 = match symbol(cs, at1, ';') {
        Some(end) => end,
        None => at1,
    };
    let node = Statement::ExprStmt(e);
    proof {
        lemma_stmt_view(node);
    }
    Some((node, at2))
}

fn parse_step(cs: &Vec<char>, pos: usize) -> (r: Option<(Expr, usize)>)
    requires
        pos <= cs.len(),
    ensures
        reads_expr(r, grammar::parse_step(cs@, pos as int), pos, cs.len()),
{
    let at1 = token(cs, pos, "by")?;
    let (step, at2) = parse_expr(cs, at1)?;
    Some((step, at2))
}

/// The parts of a `for` loop that stand before its body.
struct ForParts {
    var: String,
    start: Expr,
    end: Expr,
    step: Option<Expr>,
}

fn for_range(cs: &Vec<char>, pos: usize) -> (r: Option<((Expr, Expr, Option<Expr>), usize)>)
    requires
        pos <= cs.len(),
    ensures
        match grammar::for_range(cs@, pos as int) {
            Some(((start, end, step), n)) => r matches Some(((a, b, c), at)) && a@ == start && b@
                == end && crate::ast::option_expr_view(c) == step && at == pos + n && at
                <= cs.len(),
            None => r is None,
        },
{
    let (start, at1) = parse_expr(cs, pos)?;
    let at2 = token(cs, at1, "..")?;
    let (end, at3) = parse_expr(cs, at2)?;
    match parse_step(cs, at3) {
        Some((step, at4)) => Some(((start, end, Some(step)), at4)),
        None => Some(((start, end, None), at3)),
    }
}

fn for_header(cs: &Vec<char>, pos: usize) -> (r: Option<(ForParts, usize)>)
    requires
        pos <= cs.len(),
    ensures
        match grammar::for_header(cs@, pos as int) {
            Some((header, n)) => r matches Some((parts, at)) && parts.var@ == header.var
                && parts.start@ == header.start && parts.end@ == header.end
                && crate::ast::option_expr_view(parts.step) == header.step && at == pos + n
                && pos < at <= cs.len(),
            None => r is None,
        },
{
    reveal(grammar::for_header);
    let at1 = token(cs, pos, "for")?;
    let (var, at2) = identifier(cs, at1)?;
    let at3 = token(cs, at2, "in")?;
    let ((start, end, step), at4) = for_range(cs, at3)?;
    Some((ForParts { var, start, end, step }, at4))
}

fn validate_header(cs: &Vec<char>, pos: usize) -> (r: Option<(String, usize)>)
    requires
        pos <= cs.len(),
    ensures
        match grammar::validate_header(cs@, pos as int) {
            Some((target, n)) => r matches Some((text, at)) && text@ == target && at == pos + n
                && pos < at <= cs.len(),
            None => r is None,
        },
{
    reveal(grammar::validate_header);
    let at1 = token(cs, pos, "validate")?;
    let (target, at2) = identifier(cs, at1)?;
    let at3 = symbol(cs, at2, '{')?;
    let at4 = token(cs, at3, "success")?;
    let at5 = symbol(cs, at4, ':')?;
    Some((target, at5))
}

fn parse_braced(cs: &Vec<char>, pos: usize) -> (r: Option<(Block, usize)>)
    requires
        pos <= cs.len(),
    ensures
        match grammar::parse_braced(cs@, pos as int) {
            Some((block, n)) => r matches Some((found, end)) && found@ == block && end == pos
                + n && pos < end <= cs.len(),
            None => r is None,
        },
    decreases cs.len() - pos, 0nat,
{
    let at1 = symbol(cs, pos, '{')?;
    let (statements, at2) = parse_block_content(cs, at1);
    let at3 = symbol(cs, at2, '}')?;
    Some((Block { statements }, at3))
}

fn parse_while(cs: &Vec<char>, pos: usize) -> (r: Option<(Statement, usize)>)
    requires
        pos <= cs.len(),
    ensures
        reads_stmt(r, grammar::parse_while(cs@, pos as int), pos, cs.len()),
    decreases cs.len() - pos, 18nat,
{
    let at1 = token(cs, pos, "while")?;
    let (condition, at2) = parse_expr(cs, at1)?;
    let (body, at3) = parse_braced(cs, at2)?;
    let node = Statement::While { condition, body };
    proof {
        lemma_stmt_view(node);
    }
    Some((node, at3))
}

fn parse_for(cs: &Vec<char>, pos: usize) -> (r: Option<(Statement, usize)>)
    requires
        pos <= cs.len(),
    ensures
        reads_stmt(r, grammar::parse_for(cs@, pos as int), pos, cs.len()),
    decreases cs.len() - pos, 18nat,
{
    let (parts, at1) = for_header(cs, pos)?;
    let (body, at2) = parse_braced(cs, at1)?;
    let node = Statement::For {
        var: parts.var,
        start: parts.start,
        end: parts.end,
        step: parts.step,
        body,
    };
    proof {
        lemma_stmt_view(node);
    }
    Some((node, at2))
}

fn parse_if(cs: &Vec<char>, pos: usize) -> (r: Option<(Statement, usize)>)
    requires
        pos <= cs.len(),
    ensures
        reads_stmt(r, grammar::parse_if(cs@, pos as int), pos, cs.len()),
    decreases cs.len() - pos, 18nat,
{
    let at1 = token(cs, pos, "if")?;
    let (condition, at2) = parse_expr(cs, at1)?;
    let (then_block, at3) = parse_braced(cs, at2)?;
    let (else_block, end) = match parse_else(cs, at3) {
        Some((block, at4)) => (Some(block), at4),
        None => (None, at3),
    };
    let node = Statement::If { condition, then_block, else_block };
    proof {
        lemma_stmt_view(node);
    }
    Some((node, end))
}

fn parse_else(cs: &Vec<char>, pos: usize) -> (r: Option<(Block, usize)>)
    requires
        pos <= cs.len(),
    ensures
        match grammar::parse_else(cs@, pos as int) {
            Some((block, n)) => r matches Some((found, end)) && found@ == block && end == pos
                + n && pos < end <= cs.len(),
            None => r is None,
        },
    decreases cs.len() - pos, 17nat,
{
    let at1 = token(cs, pos, "else")?;
    match parse_if(cs, at1) {
        Some((nested, at2)) => {
            let mut statements: Vec<Statement> = Vec::new();
            proof {
                lemma_stmts_view_push(statements@, nested);
                assert(Seq::<SpecStatement>::empty().push(nested@) =~= seq![nested@]);
            }
            statements.push(nested);
            Some((Block { statements }, at2))
        },
        None => parse_braced(cs, at1),
    }
}

fn parse_scope(cs: &Vec<char>, pos: usize) -> (r: Option<(Statement, usize)>)
    requires
        pos <= cs.len(),
    ensures
        reads_stmt(r, grammar::parse_scope(cs@, pos as int), pos, cs.len()),
    decreases cs.len() - pos, 18nat,
{
    let at1 = token(cs, pos, "scope")?;
    let (name, at2) = identifier(cs, at1)?;
    let (body, at3) = parse_braced(cs, at2)?;
    let node = Statement::ScopeBlock { name, body };
    proof {
        lemma_stmt_view(node);
    }
    Some((node, at3))
}

fn parse_validate(cs: &Vec<char>, pos: usize) -> (r: Option<(Statement, usize)>)
    requires
        pos <= cs.len(),
    ensures
        reads_stmt(r, grammar::parse_validate(cs@, pos as int), pos, cs.len()),
    decreases cs.len() - pos, 18nat,
{
    let (target, at1) = validate_header(cs, pos)?;
    let (success, at2) = parse_braced(cs, at1)?;
    let at3 = symbol(cs, at2, '}')?;
    let node = Statement::ValidateBlock {
        target,
        schema: "Schema".to_owned(),
        on_fail: Box::new(Block { statements: Vec::new() }),
        success_scope: Box::new(success),
    };
    proof {
        lemma_stmt_view(node);
        reveal(stmts_view);
    }
    Some((node, at3))
}

fn parse_statement(cs: &Vec<char>, pos: usize) -> (r: Option<(Statement, usize)>)
    requires
        pos <= cs.len(),
    ensures
        reads_stmt(r, grammar::parse_statement(cs@, pos as int), pos, cs.len()),
    decreases cs.len() - pos, 19nat,
{
    if let Some(found) = parse_let(cs, pos) {
        return Some(found);
    }
    if let Some(found) = parse_if(cs, pos) {
        return Some(found);
    }
    if let Some(found) = parse_while(cs, pos) {
        return Some(found);
    }
    if let Some(found) = parse_for(cs, pos) {
        return Some(found);
    }
    if let Some(found) = parse_scope(cs, pos) {
        return Some(found);
    }
    if let Some(found) = parse_validate(cs, pos) {
        return Some(found);
    }
    if let Some(found) = parse_assign(cs, pos) {
        return Some(found);
    }
    if let Some(found) = parse_return(cs, pos) {
        return Some(found);
    }
    parse_expr_stmt(cs, pos)
}

/// The statements of a block, and where they end.
fn parse_block_content(cs: &Vec<char>, pos: usize) -> (r: (Vec<Statement>, usize))
    requires
        pos <= cs.len(),
    ensures
        stmts_view(r.0@) == grammar::parse_block_content(cs@, pos as int).0,
        r.1 == pos + grammar::parse_block_content(cs@, pos as int).1,
        r.1 <= cs.len(),
    decreases cs.len() - pos, 20nat,
{
    let mut found: Vec<Statement> = Vec::new();
    let ghost goal = grammar::statements_from(cs@, pos as int, stmts_view(found@));
    let mut at = pos;
    let mut more = true;
    while more
        invariant
            pos <= at <= cs.len(),
            grammar::statements_from(cs@, at as int, stmts_view(found@)).0 == goal.0,
            (at - pos) + grammar::statements_from(cs@, at as int, stmts_view(found@)).1
                == goal.1,
            !more ==> grammar::statements_from(cs@, at as int, stmts_view(found@)).1 == 0,
            !more ==> grammar::statements_from(cs@, at as int, stmts_view(found@)).0
                == stmts_view(found@),
        decreases cs.len() - at, (if more { 1nat } else { 0nat }),
    {
        more = false;
        let start = sp(cs, at);
        if let Some((statement, end)) = parse_statement(cs, start) {
            if end > start {
                proof {
                    lemma_stmts_view_push(found@, statement);
                }
                found.push(statement);
                at = sp(cs, end);
                more = true;
            }
        }
    }
    (found, at)
}

fn parse_param(cs: &Vec<char>, pos: usize) -> (r: Option<(Param, usize)>)
    requires
        pos <= cs.len(),
    ensures
        match grammar::parse_param(cs@, pos as int) {
            Some((param, n)) => r matches Some((found, end)) && found@ == param && end == pos
                + n && pos < end <= cs.len(),
            None => r is None,
        },
{
    reveal(grammar::parse_param);
    let at1 = sp(cs, pos);
    let (name, at2) = identifier(cs, at1)?;
    let at3 = sp(cs, at2);
    let at4 = symbol(cs, at3, ':')?;
    let (param_type, at5) = parse_type(cs, at4)?;
    Some((Param { name, param_type }, at5))
}

proof fn lemma_params_view_push(params: Seq<Param>, p: Param)
    ensures
        params_view(params.push(p)) == params_view(params).push(p@),
{
    assert(params_view(params.push(p)) =~= params_view(params).push(p@));
}

proof fn lemma_program_view_push(functions: Seq<FunctionDef>, f: FunctionDef)
    ensures
        program_view(functions.push(f)) == program_view(functions).push(f@),
{
    assert(program_view(functions.push(f)) =~= program_view(functions).push(f@));
}

/// The parameters of a declaration, and where they end.
fn parse_params(cs: &Vec<char>, pos: usize) -> (r: (Vec<Param>, usize))
    requires
        pos <= cs.len(),
    ensures
        params_view(r.0@) == grammar::parse_params(cs@, pos as int).0,
        r.1 == pos + grammar::parse_params(cs@, pos as int).1,
        r.1 <= cs.len(),
{
    let mut found: Vec<Param> = Vec::new();
    assert(params_view(found@) =~= Seq::<SpecParam>::empty());
    let (first, start) = match parse_param(cs, pos) {
        Some(read) => read,
        None => {
            return (found, pos);
        },
    };
    proof {
        lemma_params_view_push(found@, first);
        assert(Seq::<SpecParam>::empty().push(first@) =~= seq![first@]);
    }
    found.push(first);
    let ghost goal = grammar::params_tail(cs@, start as int, params_view(found@));
    let mut at = start;
    let mut more = true;
    while more
        invariant
            pos <= start <= at <= cs.len(),
            grammar::params_tail(cs@, at as int, params_view(found@)).0 == goal.0,
            (at - start) + grammar::params_tail(cs@, at as int, params_view(found@)).1
                == goal.1,
            !more ==> grammar::params_tail(cs@, at as int, params_view(found@)).1 == 0,
            !more ==> grammar::params_tail(cs@, at as int, params_view(found@)).0
                == params_view(found@),
        decreases cs.len() - at, (if more { 1nat } else { 0nat }),
    {
        more = false;
        if let Some(after) = symbol(cs, at, ',') {
            if let Some((next, end)) = parse_param(cs, after) {
                proof {
                    lemma_params_view_push(found@, next);
                }
                found.push(next);
                at = end;
                more = true;
            }
        }
    }
    (found, at)
}

fn parse_purity(cs: &Vec<char>, pos: usize) -> (r: Option<(Purity, usize)>)
    requires
        pos <= cs.len(),
    ensures
        match grammar::parse_purity(cs@, pos as int) {
            Some((purity, n)) => r == Some((purity, (pos + n) as usize)) && pos < pos + n
                <= cs.len(),
            None => r is None,
        },
{
    reveal(grammar::parse_purity);
    match token(cs, pos, "deterministic") {
        Some(end) => Some((Purity::Deterministic, end)),
        None => match token(cs, pos, "nondeterministic") {
            Some(end) => Some((Purity::Nondeterministic, end)),
            None => None,
        },
    }
}

fn parse_return_type(cs: &Vec<char>, pos: usize) -> (r: Option<(TypeRef, usize)>)
    requires
        pos <= cs.len(),
    ensures
        match grammar::parse_return_type(cs@, pos as int) {
            Some((t, n)) => r matches Some((found, end)) && found@ == t && end == pos + n && pos
                < end <= cs.len(),
            None => r is None,
        },
{
    reveal(grammar::parse_return_type);
    let at1 = token(cs, pos, "->")?;
    let (t, at2) = parse_type(cs, at1)?;
    Some((t, at2))
}

fn function_head(cs: &Vec<char>, pos: usize) -> (r: Result<((Purity, String), usize), usize>)
    requires
        pos <= cs.len(),
    ensures
        match grammar::function_head(cs@, pos as int) {
            Ok(((purity, name), n)) => r matches Ok(((p, text), end)) && p == purity && text@
                == name && end == pos + n && pos < end <= cs.len(),
            Err(at) => r matches Err(place) && place == at && 0 <= at <= cs.len(),
        },
{
    reveal(grammar::function_head);
    let (purity, at1) = match parse_purity(cs, pos) {
        Some(read) => read,
        None => {
            return Err(sp(cs, pos));
        },
    };
    let at2 = match token(cs, at1, "fn") {
        Some(end) => end,
        None => {
            return Err(sp(cs, at1));
        },
    };
    let at3 = sp(cs, at2);
    let (name, at4) = match identifier(cs, at3) {
        Some(read) => read,
        None => {
            return Err(at3);
        },
    };
    let at5 = sp(cs, at4);
    match symbol(cs, at5, '(') {
        Some(end) => Ok(((purity, name), end)),
        None => Err(sp(cs, at5)),
    }
}

fn function_tail(cs: &Vec<char>, pos: usize) -> (r: Result<((Vec<Param>, TypeRef), usize), usize>)
    requires
        pos <= cs.len(),
    ensures
        match grammar::function_tail(cs@, pos as int) {
            Ok(((params, t), n)) => r matches Ok(((found, kind), end)) && params_view(found@)
                == params && kind@ == t && end == pos + n && pos < end <= cs.len(),
            Err(at) => r matches Err(place) && place == at && 0 <= at <= cs.len(),
        },
{
    reveal(grammar::function_tail);
    let (params, at1) = parse_params(cs, pos);
    let at2 = match symbol(cs, at1, ')') {
        Some(end) => end,
        None => {
            return Err(sp(cs, at1));
        },
    };
    match parse_return_type(cs, at2) {
        Some((t, at3)) => Ok(((params, t), at3)),
        None => Ok(((params, TypeRef::Void), at2)),
    }
}

fn function_body(cs: &Vec<char>, pos: usize) -> (r: Result<(Block, usize), usize>)
    requires
        pos <= cs.len(),
    ensures
        match grammar::function_body(cs@, pos as int) {
            Ok((block, n)) => r matches Ok((found, end)) && found@ == block && end == pos + n
                && pos < end <= cs.len(),
            Err(at) => r matches Err(place) && place == at && 0 <= at <= cs.len(),
        },
{
    reveal(grammar::function_body);
    let at1 = match symbol(cs, pos, '{') {
        Some(end) => end,
        None => {
            return Err(sp(cs, pos));
        },
    };
    let (statements, at2) = parse_block_content(cs, at1);
    match symbol(cs, at2, '}') {
        Some(end) => Ok((Block { statements }, end)),
        None => Err(sp(cs, at2)),
    }
}

fn parse_function(cs: &Vec<char>, pos: usize) -> (r: Result<(FunctionDef, usize), usize>)
    requires
        pos <= cs.len(),
    ensures
        match grammar::parse_function(cs@, pos as int) {
            Ok((function, n)) => r matches Ok((found, end)) && found@ == function && end == pos
                + n && pos < end <= cs.len(),
            Err(at) => r matches Err(place) && place == at && 0 <= at <= cs.len(),
        },
{
    reveal(grammar::parse_function);
    let ((purity, name), at1) = function_head(cs, pos)?;
    let ((params, return_type), at2) = function_tail(cs, at1)?;
    let (body, at3) = function_body(cs, at2)?;
    Ok((FunctionDef { name, purity, params, return_type, body }, at3))
}

/// Reads a program: one declaration or more, from the start of the text.
///
/// The result holds the declarations and the rest of the text, from the
/// first character that no declaration took. Where not even one declaration
/// reads, the error says where the first one stops.
pub fn parse_program<'a>(input: &'a str) -> (r: Result<(&'a str, Vec<FunctionDef>), SyntaxError>)
    ensures
        match grammar::parse_program(input@) {
            Ok((functions, n)) => r matches Ok((rest, found)) && program_view(found@)
                == functions && n <= input@.len() && rest@ == input@.subrange(
                n as int,
                input@.len() as int,
            ),
            Err(at) => r matches Err(error) && error.offset == at,
        },
{
    let chars = chars_of(input);
    let cs = &chars;
    let mut found: Vec<FunctionDef> = Vec::new();
    assert(program_view(found@) =~= Seq::<SpecFunctionDef>::empty());
    let lead = sp(cs, 0);
    let (first, end) = match parse_function(cs, lead) {
        Ok(read) => read,
        Err(offset) => {
            return Err(SyntaxError { offset });
        },
    };
    proof {
        lemma_program_view_push(found@, first);
        assert(Seq::<SpecFunctionDef>::empty().push(first@) =~= seq![first@]);
    }
    found.push(first);
    let start = sp(cs, end);
    let ghost goal = grammar::functions_from(cs@, start as int, program_view(found@));
    let mut at = start;
    let mut more = true;
    while more
        invariant
            start <= at <= cs.len(),
            grammar::functions_from(cs@, at as int, program_view(found@)).0 == goal.0,
            (at - start) + grammar::functions_from(cs@, at as int, program_view(found@)).1
                == goal.1,
            !more ==> grammar::functions_from(cs@, at as int, program_view(found@)).1 == 0,
            !more ==> grammar::functions_from(cs@, at as int, program_view(found@)).0
                == program_view(found@),
        decreases cs.len() - at, (if more { 1nat } else { 0nat }),
    {
        more = false;
        let begin = sp(cs, at);
        if let Ok((function, end)) = parse_function(cs, begin) {
            proof {
                lemma_program_view_push(found@, function);
            }
            found.push(function);
            at = sp(cs, end);
            more = true;
        }
    }
    let rest = input.substring_char(at, cs.len());
    Ok((rest, found))
}

} // verus!
