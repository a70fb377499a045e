//! The label predicate and the two operand grammars.
use crate::error::{InvalidArgument, ParseError, ParseErrorModel};
use crate::stmt::{RegisterValue, Value};
use crate::text::{chars_of, i64_literal, is_decimal_digit, parse_i64, parse_usize, usize_literal};
use vstd::prelude::*;
use vstd::string::StrSliceExecFns;

verus! {

/// An ASCII letter or `_`.
pub open spec fn is_label_start(c: char) -> bool {
    ('a' <= c && c <= 'z') || ('A' <= c && c <= 'Z') || c == '_'
}

/// An ASCII letter, an ASCII digit or `_`.
pub open spec fn is_label_char(c: char) -> bool {
    is_label_start(c) || is_decimal_digit(c)
}

/// A label: non-empty, starting with an ASCII letter or `_`, and made of
/// ASCII letters, digits and `_` only.
pub open spec fn valid_label(s: Seq<char>) -> bool {
    &&& s.len() > 0
    &&& is_label_start(s[0])
    &&& forall|i: int| 0 <= i < s.len() ==> is_label_char(#[trigger] s[i])
}

/// The general operand: `=n` an immediate, `*n` an indirect register, `n` a
/// direct register.
pub open spec fn value_operand(t: Seq<char>) -> Result<Value, InvalidArgument> {
    if t.len() > 0 && t[0] == '=' {
        match i64_literal(t.drop_first()) {
            Some(n) => Ok(Value::Pure(n)),
            None => Err(InvalidArgument::ArgumentValueMustBeNumeric),
        }
    } else if t.len() > 0 && t[0] == '*' {
        match usize_literal(t.drop_first()) {
            Some(n) => Ok(Value::Register(RegisterValue::Indirect(n))),
            None => Err(InvalidArgument::ArgumentValueMustBeNumeric),
        }
    } else {
        match usize_literal(t) {
            Some(n) => Ok(Value::Register(RegisterValue::Direct(n))),
            None => Err(InvalidArgument::ArgumentIsNotValid),
        }
    }
}

/// The register operand: `*n` an indirect register, `n` a direct register;
/// an immediate `=...` is refused with its own reason.
pub open spec fn register_operand(t: Seq<char>) -> Result<RegisterValue, InvalidArgument> {
    if t.len() > 0 && t[0] == '*' {
        match usize_literal(t.drop_first()) {
            Some(n) => Ok(RegisterValue::Indirect(n)),
            None => Err(InvalidArgument::ArgumentValueMustBeNumeric),
        }
    } else {
        match usize_literal(t) {
            Some(n) => Ok(RegisterValue::Direct(n)),
            None => if t.len() > 0 && t[0] == '=' {
                Err(InvalidArgument::PureArgumentIsNotAllowed)
            } else {
                Err(InvalidArgument::ArgumentIsNotValid)
            },
        }
    }
}

/// Whether `label` is a valid label name.
pub fn is_valid_label(label: &str) -> (r: bool)
    ensures
        r == valid_label(label@),
{
    let cs = chars_of(label);
    if cs.len() == 0 {
        return false;
    }
    let first = cs[0];
    if !(('a' <= first && first <= 'z') || ('A' <= first && first <= 'Z') || first == '_') {
        return false;
    }
    let mut i: usize = 0;
    while i < cs.len()
        invariant
            i <= cs@.len(),
            cs@ == label@,
            forall|j: int| 0 <= j < i ==> is_label_char(#[trigger] cs@[j]),
        decreases cs@.len() - i,
    {
        let c = cs[i];
        if !(('a' <= c && c <= 'z') || ('A' <= c && c <= 'Z') || c == '_' || ('0' <= c && c
            <= '9')) {
            assert(!is_label_char(cs@[i as int]));
            return false;
        }
        i = i + 1;
    }
    true
}

/// The text after the first character of `s`, which must not be empty.
fn rest_of(s: &str) -> (r: &str)
    requires
        s@.len() > 0,
    ensures
        r@ == s@.drop_first(),
{
    let n = s.unicode_len();
    s.substring_char(1, n)
}

/// Whether `s` starts with `c`.
fn starts_with(s: &str, c: char) -> (r: bool)
    ensures
        r == (s@.len() > 0 && s@[0] == c),
{
    if s.unicode_len() == 0 {
        false
    } else {
        s.get_char(0) == c
    }
}

/// Reads a general operand; the error reports `line`.
pub fn parse_value(tail: &str, line: usize) -> (r: Result<Value, ParseError>)
    ensures
        match value_operand(tail@) {
            Ok(v) => r == Ok::<Value, ParseError>(v),
            Err(k) => r is Err && r->Err_0@ == ParseErrorModel::ArgumentIsNotValid(line, k),
        },
{
    if starts_with(tail, '=') {
        match parse_i64(rest_of(tail)) {
            Some(n) => Ok(Value::Pure(n)),
            None => Err(ParseError::argument_value_must_be_numeric(line)),
        }
    } else if starts_with(tail, '*') {
        match parse_usize(rest_of(tail)) {
            Some(n) => Ok(Value::Register(RegisterValue::Indirect(n))),
            None => Err(ParseError::argument_value_must_be_numeric(line)),
        }
    } else {
        match parse_usize(tail) {
            Some(n) => Ok(Value::Register(RegisterValue::Direct(n))),
            None => Err(ParseError::not_valid_argument(line)),
        }
    }
}

/// Reads a register operand; the error reports `line`.
pub fn parse_register(tail: &str, line: usize) -> (r: Result<RegisterValue, ParseError>)
    ensures
        match register_operand(tail@) {
            Ok(v) => r == Ok::<RegisterValue, ParseError>(v),
            Err(k) => r is Err && r->Err_0@ == ParseErrorModel::ArgumentIsNotValid(line, k),
        },
{
    if starts_with(tail, '*') {
        match parse_usize(rest_of(tail)) {
            Some(n) => Ok(RegisterValue::Indirect(n)),
            None => Err(ParseError::argument_value_must_be_numeric(line)),
        }
    } else {
        match parse_usize(tail) {
            Some(n) => Ok(RegisterValue::Direct(n)),
            None => if starts_with(tail, '=') {
                Err(ParseError::pure_argument_not_allowed(line))
            } else {
                Err(ParseError::not_valid_argument(line))
            },
        }
    }
}

} // verus!
