//! Field values attached to events.
use crate::text::{dec, int_dec, push_decimal, push_int_decimal};
use vstd::prelude::*;
use vstd::string::*;

verus! {

/// A floating-point field value, held without floating-point arithmetic.
///
/// `bits` is the IEEE-754 bit pattern of the number; `text` is its decimal
/// text as `Display` writes it and `json` its JSON number text (`null` when
/// the number is not finite). The owner that creates the value from an `f64`
/// supplies both texts, so rendering never formats a float itself.
#[derive(Debug)]
pub struct FloatValue {
    pub bits: u64,
    pub text: String,
    pub json: String,
}

impl Clone for FloatValue {
    fn clone(&self) -> (r: Self)
        ensures
            r == *self,
    {
        FloatValue { bits: self.bits, text: self.text.clone(), json: self.json.clone() }
    }
}

/// A structured field value.
#[derive(Debug)]
pub enum Value {
    String(String),
    Int(i64),
    Uint(u64),
    Float(FloatValue),
    Bool(bool),
    DurationMs(u64),
    Null,
}

impl Clone for Value {
    fn clone(&self) -> (r: Self)
        ensures
            r == *self,
    {
        match self {
            Value::String(s) => Value::String(s.clone()),
            Value::Int(i) => Value::Int(*i),
            Value::Uint(u) => Value::Uint(*u),
            Value::Float(f) => Value::Float(f.clone()),
            Value::Bool(b) => Value::Bool(*b),
            Value::DurationMs(ms) => Value::DurationMs(*ms),
            Value::Null => Value::Null,
        }
    }
}

/// The lower-case name of a value's variant.
pub open spec fn value_type_name(v: Value) -> Seq<char> {
    match v {
        Value::String(_) => "string"@,
        Value::Int(_) => "int"@,
        Value::Uint(_) => "uint"@,
        Value::Float(_) => "float"@,
        Value::Bool(_) => "bool"@,
        Value::DurationMs(_) => "duration_ms"@,
        Value::Null => "null"@,
    }
}

/// `true` or `false`.
pub open spec fn bool_text(b: bool) -> Seq<char> {
    if b {
        "true"@
    } else {
        "false"@
    }
}

/// The display text of a value: strings as they are, numbers in decimal,
/// durations with an `ms` suffix.
pub open spec fn value_text(v: Value) -> Seq<char> {
    match v {
        Value::String(s) => s@,
        Value::Int(i) => int_dec(i as int),
        Value::Uint(u) => dec(u as nat),
        Value::Float(f) => f.text@,
        Value::Bool(b) => bool_text(b),
        Value::DurationMs(ms) => dec(ms as nat) + "ms"@,
        Value::Null => "null"@,
    }
}

/// Appends `true` or `false`.
pub fn push_bool(out: &mut String, b: bool)
    ensures
        final(out)@ == old(out)@ + bool_text(b),
{
    if b {
        out.append("true");
    } else {
        out.append("false");
    }
}

impl Value {
    /// The lower-case name of this value's variant.
    pub fn kind_name(&self) -> (s: &'static str)
        ensures
            s@ == value_type_name(*self),
    {
        match self {
            Value::String(_) => "string",
            Value::Int(_) => "int",
            Value::Uint(_) => "uint",
            Value::Float(_) => "float",
            Value::Bool(_) => "bool",
            Value::DurationMs(_) => "duration_ms",
            Value::Null => "null",
        }
    }

    /// Appends the display text of this value.
    pub fn push_text(&self, out: &mut String)
        ensures
            final(out)@ == old(out)@ + value_text(*self),
    {
        match self {
            Value::String(s) => out.append(s.as_str()),
            Value::Int(i) => push_int_decimal(out, *i),
            Value::Uint(u) => push_decimal(out, *u),
            Value::Float(f) => out.append(f.text.as_str()),
            Value::Bool(b) => push_bool(out, *b),
            Value::DurationMs(ms) => {
                push_decimal(out, *ms);
                out.append("ms");
                assert(out@ =~= old(out)@ + value_text(*self));
            },
            Value::Null => out.append("null"),
        }
    }

    /// The display text of this value, as `Display` writes it.
    pub fn to_text(&self) -> (s: String)
        ensures
            s@ == value_text(*self),
    {
        let mut s = String::new();
        self.push_text(&mut s);
        assert(s@ =~= value_text(*self));
        s
    }
}

} // verus!
