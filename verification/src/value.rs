//! The runtime value of the machine: a tagged union of a double (carried as
//! its IEEE 754 bit pattern), a text string, and null.
//!
//! Arithmetic is defined only between two operands of the same variant; any
//! mismatch, and division by a double whose bit pattern is a zero, is absorbed
//! into `Null` rather than raised as an error. A binary operation on two
//! doubles is not computed here: it is handed back to the embedder as the two
//! bit patterns, so that everything the machine itself decides stays exact.

use vstd::prelude::*;

use crate::render::{hex_digits, hex_string};

verus! {

/// The bit that IEEE 754 negation of a double flips.
pub const DOUBLE_SIGN_BIT: u64 = 0x8000_0000_0000_0000;

/// The mathematical form of a [`Value`]: the string variant is a sequence of
/// characters.
pub enum ValueModel {
    Double(u64),
    Str(Seq<char>),
    Null,
}

/// A runtime value. `Double` holds the IEEE 754 bit pattern of the double.
#[derive(Debug)]
pub enum Value {
    Double(u64),
    Str(String),
    Null,
}

impl View for Value {
    type V = ValueModel;

    open spec fn view(&self) -> ValueModel {
        match self {
            Value::Double(b) => ValueModel::Double(*b),
            Value::Str(s) => ValueModel::Str(s@),
            Value::Null => ValueModel::Null,
        }
    }
}

impl DeepView for Value {
    type V = ValueModel;

    open spec fn deep_view(&self) -> ValueModel {
        self.view()
    }
}

impl Clone for Value {
    fn clone(&self) -> (r: Self)
        ensures
            r == *self,
    {
        match self {
            Value::Double(b) => Value::Double(*b),
            Value::Str(s) => Value::Str(s.clone()),
            Value::Null => Value::Null,
        }
    }
}

/// What one binary arithmetic instruction reduces to: either a finished value,
/// or the two double bit patterns whose IEEE 754 combination the embedder must
/// supply.
pub enum ArithResult {
    Done(Value),
    DoubleOp(u64, u64),
}

/// The mathematical form of an [`ArithResult`].
pub enum ArithResultModel {
    Done(ValueModel),
    DoubleOp(u64, u64),
}

impl View for ArithResult {
    type V = ArithResultModel;

    open spec fn view(&self) -> ArithResultModel {
        match self {
            ArithResult::Done(v) => ArithResultModel::Done(v@),
            ArithResult::DoubleOp(a, b) => ArithResultModel::DoubleOp(*a, *b),
        }
    }
}

/// A double's bit pattern compares equal to `0.0` exactly when everything but
/// the sign bit is clear (`+0.0` or `-0.0`).
pub open spec fn is_zero_double(b: u64) -> bool {
    b & 0x7FFF_FFFF_FFFF_FFFF == 0
}

/// IEEE 754 negation of a double flips the sign bit and nothing else.
pub open spec fn negated_double(b: u64) -> u64 {
    b ^ DOUBLE_SIGN_BIT
}

/// The numbering of the variants used by `type_eq`.
pub open spec fn type_tag(v: ValueModel) -> u32 {
    match v {
        ValueModel::Double(_) => 0,
        ValueModel::Null => 1,
        ValueModel::Str(_) => 2,
    }
}

/// What `add` returns: two doubles defer to the embedder, two strings
/// concatenate, anything else (including two nulls) is `Null`.
pub open spec fn add_model(l: ValueModel, r: ValueModel) -> ArithResultModel {
    match (l, r) {
        (ValueModel::Double(a), ValueModel::Double(b)) => ArithResultModel::DoubleOp(a, b),
        (ValueModel::Str(a), ValueModel::Str(b)) => ArithResultModel::Done(ValueModel::Str(a + b)),
        _ => ArithResultModel::Done(ValueModel::Null),
    }
}

/// What `sub` returns: two doubles defer to the embedder, anything else is
/// `Null`.
pub open spec fn sub_model(l: ValueModel, r: ValueModel) -> ArithResultModel {
    match (l, r) {
        (ValueModel::Double(a), ValueModel::Double(b)) => ArithResultModel::DoubleOp(a, b),
        _ => ArithResultModel::Done(ValueModel::Null),
    }
}

/// What `multiply` returns: two doubles defer to the embedder, anything else
/// is `Null`.
pub open spec fn multiply_model(l: ValueModel, r: ValueModel) -> ArithResultModel {
    match (l, r) {
        (ValueModel::Double(a), ValueModel::Double(b)) => ArithResultModel::DoubleOp(a, b),
        _ => ArithResultModel::Done(ValueModel::Null),
    }
}

/// What `divide` returns: division of a double by a zero double is `Null`,
/// two other doubles defer to the embedder, anything else is `Null`.
pub open spec fn divide_model(l: ValueModel, r: ValueModel) -> ArithResultModel {
    match (l, r) {
        (ValueModel::Double(a), ValueModel::Double(b)) => if is_zero_double(b) {
            ArithResultModel::Done(ValueModel::Null)
        } else {
            ArithResultModel::DoubleOp(a, b)
        },
        _ => ArithResultModel::Done(ValueModel::Null),
    }
}

/// The diagnostic text of a value: doubles render as the hexadecimal form of
/// their bit pattern.
pub open spec fn value_text(v: ValueModel) -> Seq<char> {
    match v {
        ValueModel::Double(b) => "0x"@ + hex_digits(b),
        ValueModel::Str(s) => s,
        ValueModel::Null => "null"@,
    }
}

impl Value {
    /// The diagnostic text of this value.
    pub fn to_string(&self) -> (r: String)
        ensures
            r@ == value_text(self@),
    {
        match self {
            Value::Double(b) => {
                let mut r = String::from_str("0x");
                let digits = hex_string(*b);
                r.append(digits.as_str());
                r
            },
            Value::Null => String::from_str("null"),
            Value::Str(s) => s.clone(),
        }
    }

    /// Whether the two values are the same variant.
    pub fn type_eq(&self, other: &Value) -> (r: bool)
        ensures
            r == (type_tag(self@) == type_tag(other@)),
    {
        self.to_u32() == other.to_u32()
    }

    /// The variant number used by `type_eq`.
    fn to_u32(&self) -> (r: u32)
        ensures
            r == type_tag(self@),
    {
        match self {
            Value::Double(_) => 0,
            Value::Null => 1,
            Value::Str(_) => 2,
        }
    }

    /// Type-checked addition; two strings concatenate.
    pub fn add(&self, right: &Value) -> (r: ArithResult)
        ensures
            r@ == add_model(self@, right@),
    {
        match (self, right) {
            (Value::Double(a), Value::Double(b)) => ArithResult::DoubleOp(*a, *b),
            (Value::Str(a), Value::Str(b)) => ArithResult::Done(
                Value::Str(a.clone().concat(b.as_str())),
            ),
            _ => ArithResult::Done(Value::Null),
        }
    }

    /// Type-checked subtraction.
    pub fn sub(&self, right: &Value) -> (r: ArithResult)
        ensures
            r@ == sub_model(self@, right@),
    {
        match (self, right) {
            (Value::Double(a), Value::Double(b)) => ArithResult::DoubleOp(*a, *b),
            _ => ArithResult::Done(Value::Null),
        }
    }

    /// Type-checked multiplication.
    pub fn multiply(&self, right: &Value) -> (r: ArithResult)
        ensures
            r@ == multiply_model(self@, right@),
    {
        match (self, right) {
            (Value::Double(a), Value::Double(b)) => ArithResult::DoubleOp(*a, *b),
            _ => ArithResult::Done(Value::Null),
        }
    }

    /// Type-checked division; a zero divisor is absorbed into `Null`.
    pub fn divide(&self, right: &Value) -> (r: ArithResult)
        ensures
            r@ == divide_model(self@, right@),
    {
        match (self, right) {
            (Value::Double(a), Value::Double(b)) => {
                if *b & 0x7FFF_FFFF_FFFF_FFFF == 0 {
                    ArithResult::Done(Value::Null)
                } else {
                    ArithResult::DoubleOp(*a, *b)
                }
            },
            _ => ArithResult::Done(Value::Null),
        }
    }
}

/// Negating a double twice restores the original bit pattern exactly: the
/// round-trip law for `NEGATE`.
pub proof fn lemma_double_negation_involution(b: u64)
    ensures
        negated_double(negated_double(b)) == b,
{
    assert((b ^ 0x8000_0000_0000_0000) ^ 0x8000_0000_0000_0000 == b) by (bit_vector);
}

} // verus!
