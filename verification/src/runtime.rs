//! What the generated code relies on at run time, as far as it computes:
//! the dispatch of `+` and `*` over integers and text, validation, and the
//! lookup of a field in JSON text.

use crate::text::{int_text, push_int};
use vstd::prelude::*;
use vstd::string::StringExecFns;

verus! {

/// The text that a field lookup yields where the source is no JSON or holds
/// no such field.
pub const FIELD_ERROR: &'static str = "HATA";

/// A JSON value as `serde_json` holds it. Nothing of its inside is visible
/// here; the four functions below say what is known of it.
#[verifier::external_type_specification]
#[verifier::external_body]
pub struct ExJsonValue(serde_json::Value);

/// The error of `serde_json`.
#[verifier::external_type_specification]
#[verifier::external_body]
pub struct ExJsonError(serde_json::Error);

/// The value that `serde_json::from_str` reads from a text, if it reads one.
pub uninterp spec fn json_document(text: Seq<char>) -> Option<serde_json::Value>;

/// The member that `Value::get` finds under a key.
pub uninterp spec fn json_member(doc: serde_json::Value, key: Seq<char>) -> Option<
    serde_json::Value,
>;

/// The contents that `Value::as_str` hands out: those of a string, and
/// nothing for any other value.
pub uninterp spec fn json_string(value: serde_json::Value) -> Option<Seq<char>>;

/// The JSON text that a value is displayed as.
pub uninterp spec fn json_text(value: serde_json::Value) -> Seq<char>;

/// `serde_json::from_str` at the type `Value`: the text either is JSON and
/// gives the value that it writes, or it is refused. Which of the two, and
/// which value, depends on the text alone.
#[verifier::external_body]
fn parse_json(source: &str) -> (r: Result<serde_json::Value, serde_json::Error>)
    ensures
        match json_document(source@) {
            Some(doc) => r matches Ok(value) && value == doc,
            None => r is Err,
        },
{
    serde_json::from_str::<serde_json::Value>(source)
}

/// `Value::get` with a string for index: the member of an object under that
/// key; nothing where the value is no object or has no such member.
#[verifier::external_body]
fn member<'a>(doc: &'a serde_json::Value, key: &str) -> (r: Option<&'a serde_json::Value>)
    ensures
        match json_member(*doc, key@) {
            Some(found) => r matches Some(value) && *value == found,
            None => r is None,
        },
{
    doc.get(key)
}

/// `Value::as_str`: the contents of a string value, nothing for any other.
#[verifier::external_body]
fn string_of<'a>(value: &'a serde_json::Value) -> (r: Option<&'a str>)
    ensures
        match json_string(*value) {
            Some(contents) => r matches Some(text) && text@ == contents,
            None => r is None,
        },
{
    value.as_str()
}

/// `Value`'s `to_string`: the value written as compact JSON text.
#[verifier::external_body]
fn text_of_json(value: &serde_json::Value) -> (r: String)
    ensures
        r@ == json_text(*value),
{
    value.to_string()
}

/// What the lookup of a field finds.
#[derive(Debug, PartialEq, Eq)]
pub enum FieldLookup {
    /// The source is no JSON.
    Unreadable,
    /// The source is JSON and holds no such field.
    Missing,
    /// The field is a string with these contents.
    Text(String),
    /// The field is no string; this is its JSON text.
    Other(String),
}

pub enum SpecFieldLookup {
    Unreadable,
    Missing,
    Text(Seq<char>),
    Other(Seq<char>),
}

impl View for FieldLookup {
    type V = SpecFieldLookup;

    open spec fn view(&self) -> SpecFieldLookup {
        match self {
            FieldLookup::Unreadable => SpecFieldLookup::Unreadable,
            FieldLookup::Missing => SpecFieldLookup::Missing,
            FieldLookup::Text(s) => SpecFieldLookup::Text(s@),
            FieldLookup::Other(s) => SpecFieldLookup::Other(s@),
        }
    }
}

/// What `serde_json` finds under `key` in `source`.
pub open spec fn field_lookup(source: Seq<char>, key: Seq<char>) -> SpecFieldLookup {
    match json_document(source) {
        None => SpecFieldLookup::Unreadable,
        Some(doc) => match json_member(doc, key) {
            None => SpecFieldLookup::Missing,
            Some(value) => match json_string(value) {
                Some(contents) => SpecFieldLookup::Text(contents),
                None => SpecFieldLookup::Other(json_text(value)),
            },
        },
    }
}

/// The text that a lookup stands for: the contents of a string, the JSON
/// text of any other value, and the error text where nothing was found.
pub open spec fn field_text(found: SpecFieldLookup) -> Seq<char> {
    match found {
        SpecFieldLookup::Unreadable => FIELD_ERROR@,
        SpecFieldLookup::Missing => FIELD_ERROR@,
        SpecFieldLookup::Text(contents) => contents,
        SpecFieldLookup::Other(json) => json,
    }
}

/// Looks `key` up in the JSON text `source`.
pub fn lookup_field(source: &str, key: &str) -> (found: FieldLookup)
    ensures
        found@ == field_lookup(source@, key@),
{
    match parse_json(source) {
        Err(_) => FieldLookup::Unreadable,
        Ok(doc) => match member(&doc, key) {
            None => FieldLookup::Missing,
            Some(value) => match string_of(value) {
                Some(contents) => FieldLookup::Text(contents.to_owned()),
                None => FieldLookup::Other(text_of_json(value)),
            },
        },
    }
}

/// The text that the generated code puts in place of a field access.
pub fn render_field(found: FieldLookup) -> (text: String)
    ensures
        text@ == field_text(found@),
{
    match found {
        FieldLookup::Unreadable => FIELD_ERROR.to_owned(),
        FieldLookup::Missing => FIELD_ERROR.to_owned(),
        FieldLookup::Text(contents) => contents,
        FieldLookup::Other(json) => json,
    }
}

/// The field `key` of the JSON text `source`, as text.
pub fn json_field(source: &str, key: &str) -> (text: String)
    ensures
        text@ == field_text(field_lookup(source@, key@)),
{
    render_field(lookup_field(source, key))
}

/// The validation of a string: it succeeds, and hands the string back.
pub fn validate(text: &String) -> (r: Result<String, String>)
    ensures
        r matches Ok(same) && same@ == text@,
{
    Ok(text.clone())
}

/// An operand of a dispatched operator.
#[derive(Debug, PartialEq, Eq)]
pub enum Operand {
    Int(i64),
    Text(String),
}

pub enum SpecOperand {
    Int(int),
    Text(Seq<char>),
}

impl View for Operand {
    type V = SpecOperand;

    open spec fn view(&self) -> SpecOperand {
        match self {
            Operand::Int(n) => SpecOperand::Int(*n as int),
            Operand::Text(s) => SpecOperand::Text(s@),
        }
    }
}

/// `count` copies of `text`, one after the other.
pub open spec fn repeated(text: Seq<char>, count: nat) -> Seq<char>
    decreases count,
{
    if count == 0 {
        Seq::empty()
    } else {
        repeated(text, (count - 1) as nat) + text
    }
}

/// What `+` means for a pair of operands: the sum of two integers, two
/// texts joined, a text joined with the decimal numeral of an integer. An
/// integer on the left of a text has no meaning.
pub open spec fn sum_of(left: SpecOperand, right: SpecOperand) -> Option<SpecOperand> {
    match (left, right) {
        (SpecOperand::Int(a), SpecOperand::Int(b)) => Some(SpecOperand::Int(a + b)),
        (SpecOperand::Text(a), SpecOperand::Text(b)) => Some(SpecOperand::Text(a + b)),
        (SpecOperand::Text(a), SpecOperand::Int(b)) => Some(SpecOperand::Text(a + int_text(b))),
        (SpecOperand::Int(_), SpecOperand::Text(_)) => None,
    }
}

/// What `*` means for a pair of operands: the product of two integers, a
/// text repeated as often as an integer says. Nothing else has a meaning.
pub open spec fn product_of(left: SpecOperand, right: SpecOperand) -> Option<SpecOperand> {
    match (left, right) {
        (SpecOperand::Int(a), SpecOperand::Int(b)) => Some(SpecOperand::Int(a * b)),
        (SpecOperand::Text(a), SpecOperand::Int(b)) => Some(
            SpecOperand::Text(repeated(a, b as nat)),
        ),
        (_, SpecOperand::Text(_)) => None,
    }
}

/// Whether `+` can be computed: the sum of two integers fits into 64 bits.
pub open spec fn sum_fits(left: SpecOperand, right: SpecOperand) -> bool {
    match (left, right) {
        (SpecOperand::Int(a), SpecOperand::Int(b)) => i64::MIN <= a + b <= i64::MAX,
        _ => true,
    }
}

/// Whether `*` can be computed: the product of two integers fits into 64
/// bits, and a text is repeated zero times or more.
pub open spec fn product_fits(left: SpecOperand, right: SpecOperand) -> bool {
    match (left, right) {
        (SpecOperand::Int(a), SpecOperand::Int(b)) => i64::MIN <= a * b <= i64::MAX,
        (SpecOperand::Text(_), SpecOperand::Int(count)) => count >= 0,
        _ => true,
    }
}

/// The dispatched `+`. The sum of two integers has to fit.
pub fn g_add(left: Operand, right: Operand) -> (r: Option<Operand>)
    requires
        sum_fits(left@, right@),
    ensures
        match sum_of(left@, right@) {
            Some(value) => r matches Some(found) && found@ == value,
            None => r is None,
        },
{
    match (left, right) {
        (Operand::Int(a), Operand::Int(b)) => Some(Operand::Int(a + b)),
        (Operand::Text(a), Operand::Text(b)) => {
            let mut joined = a;
            joined.append(b.as_str());
            Some(Operand::Text(joined))
        },
        (Operand::Text(a), Operand::Int(b)) => {
            let mut joined = a;
            push_int(&mut joined, b);
            Some(Operand::Text(joined))
        },
        (Operand::Int(_), Operand::Text(_)) => None,
    }
}

/// The dispatched `*`. The product of two integers has to fit, and a text
/// is repeated zero times or more.
pub fn g_mul(left: Operand, right: Operand) -> (r: Option<Operand>)
    requires
        product_fits(left@, right@),
    ensures
        match product_of(left@, right@) {
            Some(value) => r matches Some(found) && found@ == value,
            None => r is None,
        },
{
    match (left, right) {
        (Operand::Int(a), Operand::Int(b)) => Some(Operand::Int(a * b)),
        (Operand::Text(a), Operand::Int(b)) => {
            let mut out = String::new();
            let mut done: i64 = 0;
            while done < b
                invariant
                    0 <= done <= b,
                    out@ == repeated(a@, done as nat),
                decreases b - done,
            {
                out.append(a.as_str());
                done += 1;
            }
            Some(Operand::Text(out))
        },
        (_, Operand::Text(_)) => None,
    }
}

/// Whether a `for` loop whose variable stands at `var` runs its body once
/// more: the step says in which direction the end lies.
pub open spec fn continues(var: int, end: int, step: int) -> bool {
    (step > 0 && var < end) || (step < 0 && var > end)
}

/// How far the variable of a `for` loop is from its end, in the direction
/// of its step.
pub open spec fn distance(var: int, end: int, step: int) -> nat {
    if step > 0 && var < end {
        (end - var) as nat
    } else if step < 0 && var > end {
        (var - end) as nat
    } else {
        0
    }
}

/// The values that the variable of a `for` loop takes, in order.
pub open spec fn for_visits(start: int, end: int, step: int) -> Seq<int>
    decreases distance(start, end, step),
{
    if continues(start, end, step) {
        seq![start] + for_visits(start + step, end, step)
    } else {
        Seq::empty()
    }
}

/// The test that a lowered `for` loop makes before every round.
pub fn for_continues(var: i64, end: i64, step: i64) -> (again: bool)
    ensures
        again == continues(var as int, end as int, step as int),
{
    (step > 0 && var < end) || (step < 0 && var > end)
}

/// The direction of a `for` loop comes from the sign of its step. The
/// variable starts at `start` and moves by `step`; with a positive step it
/// stays below `end`, with a negative step above it. A step of zero, and a
/// step that points away from `end`, visit nothing.
pub proof fn law_for_direction(start: int, end: int, step: int)
    ensures
        forall|k: int|
            0 <= k < for_visits(start, end, step).len() ==> #[trigger] for_visits(
                start,
                end,
                step,
            )[k] == start + k * step,
        forall|k: int|
            0 <= k < for_visits(start, end, step).len() ==> continues(
                #[trigger] for_visits(start, end, step)[k],
                end,
                step,
            ),
        step == 0 || (step > 0 && start >= end) || (step < 0 && start <= end) ==> for_visits(
            start,
            end,
            step,
        ).len() == 0,
        continues(start, end, step) ==> !continues(
            start + for_visits(start, end, step).len() * step,
            end,
            step,
        ),
    decreases distance(start, end, step),
{
    if continues(start, end, step) {
        let rest = for_visits(start + step, end, step);
        let all = for_visits(start, end, step);
        law_for_direction(start + step, end, step);
        assert(all.len() == rest.len() + 1);
        assert forall|k: int| 0 <= k < all.len() implies #[trigger] all[k] == start + k
            * step && continues(all[k], end, step) by {
            if k > 0 {
                assert(all[k] == rest[k - 1]);
                assert(start + step + (k - 1) * step == start + k * step) by (nonlinear_arith);
            }
        }
        assert(start + step + rest.len() * step == start + all.len() * step) by (nonlinear_arith)
            requires
                all.len() == rest.len() + 1,
        ;
        if !continues(start + step, end, step) {
            assert(rest.len() == 0);
        }
    }
}

/// The Fibonacci numbers, continued below zero by the argument itself.
pub open spec fn fib_of(n: int) -> int
    decreases n,
{
    if n <= 1 {
        n
    } else {
        fib_of(n - 1) + fib_of(n - 2)
    }
}

proof fn lemma_fib_grows(n: int)
    requires
        n >= 1,
    ensures
        0 <= fib_of(n - 1) <= fib_of(n),
        n >= 2 ==> 0 <= fib_of(n - 2) <= fib_of(n),
    decreases n,
{
    if n >= 2 {
        lemma_fib_grows(n - 1);
        if n >= 3 {
            lemma_fib_grows(n - 2);
        }
    }
}

/// The `n`-th Fibonacci number, by the recurrence. The number has to fit.
pub fn fib(n: i64) -> (r: i64)
    requires
        fib_of(n as int) <= i64::MAX,
    ensures
        r == fib_of(n as int),
    decreases n,
{
    if n <= 1 {
        return n;
    }
    proof {
        lemma_fib_grows(n as int);
    }
    let a = fib(n - 1);
    let b = fib(n - 2);
    a + b
}

} // verus!
