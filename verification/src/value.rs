//! The polymorphic runtime value of the Chicken machine, with its total
//! coercion, arithmetic and equality rules. Invalid inputs never abort an
//! operation: they yield `NaN` or `Undefined`.

use vstd::prelude::*;
use vstd::string::StringExecFns;

use crate::numtext;
use crate::numtext::{dec_int, dec_nat, parse_int};

verus! {

/// The mathematical shape of a [`Value`]: numbers as unbounded integers,
/// strings as character sequences.
pub enum ValueModel {
    Num(int),
    Str(Seq<char>),
    Ptr(nat),
    True,
    False,
    Undefined,
    NaN,
}

/// A value on the stack. Values are freely copyable: [`Value::duplicate`]
/// makes a copy that verified code knows to be exact.
#[derive(Debug, Clone)]
pub enum Value {
    /// A signed machine-word number.
    Num(isize),
    /// An arbitrary string.
    Str(String),
    /// A pointer to some area of the stack.
    Ptr(usize),
    /// The truthy boolean constant.
    True,
    /// The falsy boolean constant.
    False,
    /// A missing or default value.
    Undefined,
    /// The result of a failed numeric coercion.
    NaN,
}

impl View for Value {
    type V = ValueModel;

    open spec fn view(&self) -> ValueModel {
        match self {
            Value::Num(n) => ValueModel::Num(*n as int),
            Value::Str(s) => ValueModel::Str(s@),
            Value::Ptr(p) => ValueModel::Ptr(*p as nat),
            Value::True => ValueModel::True,
            Value::False => ValueModel::False,
            Value::Undefined => ValueModel::Undefined,
            Value::NaN => ValueModel::NaN,
        }
    }
}

/// Coercion of a value to a number. String values are read as signed decimal
/// integers; out-of-range or malformed text, pointers, `Undefined` and `NaN`
/// all coerce to `NaN`.
pub open spec fn spec_to_num(v: ValueModel) -> ValueModel {
    match v {
        ValueModel::Num(n) => ValueModel::Num(n),
        ValueModel::Str(s) => match parse_int(s) {
            Some(x) => if isize::MIN <= x <= isize::MAX {
                ValueModel::Num(x)
            } else {
                ValueModel::NaN
            },
            None => ValueModel::NaN,
        },
        ValueModel::True => ValueModel::Num(1),
        ValueModel::False => ValueModel::Num(0),
        _ => ValueModel::NaN,
    }
}

/// Truthiness: pointers and `True` are truthy, numbers only when positive,
/// strings only when non-empty; everything else is falsy.
pub open spec fn spec_truthy(v: ValueModel) -> bool {
    match v {
        ValueModel::Ptr(_) => true,
        ValueModel::Num(n) => n > 0,
        ValueModel::Str(s) => s.len() > 0,
        ValueModel::True => true,
        _ => false,
    }
}

/// The display form of a value, used by string concatenation and by the
/// character instruction: numbers in decimal, strings verbatim, pointers in
/// their debug shape, and the word-like constants by name.
pub open spec fn spec_display(v: ValueModel) -> Seq<char> {
    match v {
        ValueModel::Num(n) => dec_int(n),
        ValueModel::Str(s) => s,
        ValueModel::Ptr(p) => "Ptr("@ + dec_nat(p) + ")"@,
        ValueModel::True => "true"@,
        ValueModel::False => "false"@,
        ValueModel::Undefined => "undefined"@,
        ValueModel::NaN => "NaN"@,
    }
}

/// One machine-word wrap of an integer that is at most one range away from
/// the representable interval, as the sum or difference of two machine words
/// always is.
pub open spec fn wrap_once(x: int) -> int {
    if x > isize::MAX {
        x - (isize::MAX - isize::MIN + 1)
    } else if x < isize::MIN {
        x + (isize::MAX - isize::MIN + 1)
    } else {
        x
    }
}

/// Addition is string-biased: with a string on either side both sides are
/// rendered and concatenated; otherwise both are coerced to numbers and added
/// with wrap-around, any failed coercion giving `NaN`.
pub open spec fn spec_add(a: ValueModel, b: ValueModel) -> ValueModel {
    if a is Str || b is Str {
        ValueModel::Str(spec_display(a) + spec_display(b))
    } else {
        match (spec_to_num(a), spec_to_num(b)) {
            (ValueModel::Num(x), ValueModel::Num(y)) => ValueModel::Num(wrap_once(x + y)),
            _ => ValueModel::NaN,
        }
    }
}

/// Subtraction: both sides are coerced to numbers; any failure gives `NaN`.
pub open spec fn spec_sub(a: ValueModel, b: ValueModel) -> ValueModel {
    match (spec_to_num(a), spec_to_num(b)) {
        (ValueModel::Num(x), ValueModel::Num(y)) => ValueModel::Num(wrap_once(x - y)),
        _ => ValueModel::NaN,
    }
}

/// Multiplication: both sides are coerced to numbers; any failure gives `NaN`.
pub open spec fn spec_mul(a: ValueModel, b: ValueModel) -> ValueModel {
    match (spec_to_num(a), spec_to_num(b)) {
        (ValueModel::Num(x), ValueModel::Num(y)) => ValueModel::Num(
            vstd::wrapping::isize_specs::signed_crop(x * y) as int,
        ),
        _ => ValueModel::NaN,
    }
}

/// Equality across value kinds: numbers compare with booleans by 0/1, with
/// strings by decimal rendering; `NaN` equals `NaN` and `Undefined` equals
/// `Undefined`, on purpose; pointers compare only with pointers.
pub open spec fn spec_eq(a: ValueModel, b: ValueModel) -> bool {
    match (a, b) {
        (ValueModel::Num(x), ValueModel::Num(y)) => x == y,
        (ValueModel::Num(x), ValueModel::Str(t)) => dec_int(x) == t,
        (ValueModel::Num(x), ValueModel::True) => x == 1,
        (ValueModel::Num(x), ValueModel::False) => x == 0,
        (ValueModel::Str(s), ValueModel::Num(y)) => s == dec_int(y),
        (ValueModel::Str(s), ValueModel::Str(t)) => s == t,
        (ValueModel::Str(s), ValueModel::True) => s == "1"@,
        (ValueModel::Str(s), ValueModel::False) => s == "0"@,
        (ValueModel::Ptr(p), ValueModel::Ptr(q)) => p == q,
        (ValueModel::True, ValueModel::Num(y)) => y == 1,
        (ValueModel::True, ValueModel::Str(t)) => t == "1"@,
        (ValueModel::True, ValueModel::True) => true,
        (ValueModel::False, ValueModel::Num(y)) => y == 0,
        (ValueModel::False, ValueModel::Str(t)) => t == "0"@,
        (ValueModel::False, ValueModel::False) => true,
        (ValueModel::Undefined, ValueModel::Undefined) => true,
        (ValueModel::NaN, ValueModel::NaN) => true,
        _ => false,
    }
}

impl Value {
    /// An exact copy of this value.
    pub fn duplicate(&self) -> (r: Value)
        ensures
            r@ == self@,
    {
        match self {
            Value::Num(n) => Value::Num(*n),
            Value::Str(s) => Value::Str(s.clone()),
            Value::Ptr(p) => Value::Ptr(*p),
            Value::True => Value::True,
            Value::False => Value::False,
            Value::Undefined => Value::Undefined,
            Value::NaN => Value::NaN,
        }
    }

    /// Coerces this value to a number, or to `NaN` where that fails.
    pub fn to_num(&self) -> (r: Self)
        ensures
            r@ == spec_to_num(self@),
    {
        match self {
            Value::Num(n) => Value::Num(*n),
            Value::Str(s) => match numtext::parse_num(s.as_str()) {
                Some(x) => Value::Num(x),
                None => Value::NaN,
            },
            Value::True => Value::Num(1),
            Value::False => Value::Num(0),
            _ => Value::NaN,
        }
    }

    /// The same coercion, with the machine number handed out directly.
    pub fn to_num_option(&self) -> (r: Option<isize>)
        ensures
            r is Some <==> spec_to_num(self@) is Num,
            r is Some ==> spec_to_num(self@) == ValueModel::Num(r->0 as int),
    {
        match self.to_num() {
            Value::Num(n) => Some(n),
            _ => None,
        }
    }

    /// Whether this value is truthy.
    pub fn is_truthy(&self) -> (r: bool)
        ensures
            r == spec_truthy(self@),
    {
        match self {
            Value::Ptr(_) => true,
            Value::Num(n) => *n > 0,
            Value::Str(s) => !s.as_str().is_empty(),
            Value::True => true,
            Value::False => false,
            Value::Undefined => false,
            Value::NaN => false,
        }
    }

    /// The display form of this value as a string.
    pub fn to_display_string(&self) -> (r: String)
        ensures
            r@ == spec_display(self@),
    {
        match self {
            Value::Num(n) => numtext::num_to_string(*n),
            Value::Str(s) => s.clone(),
            Value::Ptr(p) => {
                let r = String::from_str("Ptr(");
                let r = r.concat(numtext::index_to_string(*p).as_str());
                let r = r.concat(")");
                proof {
                    assert(r@ =~= spec_display(self@));
                }
                r
            },
            Value::True => String::from_str("true"),
            Value::False => String::from_str("false"),
            Value::Undefined => String::from_str("undefined"),
            Value::NaN => String::from_str("NaN"),
        }
    }

    /// Addition, string-biased as in the host web language.
    pub fn add(self, other: Self) -> (r: Self)
        ensures
            r@ == spec_add(self@, other@),
    {
        if let Value::Str(a) = self {
            let b = other.to_display_string();
            Value::Str(a.concat(b.as_str()))
        } else if matches!(other, Value::Str(_)) {
            let a = self.to_display_string();
            let b = other.to_display_string();
            Value::Str(a.concat(b.as_str()))
        } else {
            match (self.to_num(), other.to_num()) {
                (Value::Num(x), Value::Num(y)) => Value::Num(x.wrapping_add(y)),
                _ => Value::NaN,
            }
        }
    }

    /// Subtraction after numeric coercion of both sides.
    pub fn sub(self, other: Self) -> (r: Self)
        ensures
            r@ == spec_sub(self@, other@),
    {
        match (self.to_num(), other.to_num()) {
            (Value::Num(x), Value::Num(y)) => Value::Num(x.wrapping_sub(y)),
            _ => Value::NaN,
        }
    }

    /// Multiplication after numeric coercion of both sides.
    pub fn mul(self, other: Self) -> (r: Self)
        ensures
            r@ == spec_mul(self@, other@),
    {
        match (self.to_num(), other.to_num()) {
            (Value::Num(x), Value::Num(y)) => Value::Num(x.wrapping_mul(y)),
            _ => Value::NaN,
        }
    }
}

impl PartialEq for Value {
    fn eq(&self, other: &Self) -> (r: bool) {
        match (self, other) {
            (Value::Num(x), Value::Num(y)) => *x == *y,
            (Value::Num(x), Value::Str(t)) => numtext::num_to_string(*x).eq(t),
            (Value::Num(x), Value::True) => *x == 1,
            (Value::Num(x), Value::False) => *x == 0,
            (Value::Str(s), Value::Num(y)) => s.eq(&numtext::num_to_string(*y)),
            (Value::Str(s), Value::Str(t)) => s.eq(t),
            (Value::Str(s), Value::True) => s.eq(&String::from_str("1")),
            (Value::Str(s), Value::False) => s.eq(&String::from_str("0")),
            (Value::Ptr(p), Value::Ptr(q)) => *p == *q,
            (Value::True, Value::Num(y)) => *y == 1,
            (Value::True, Value::Str(t)) => t.eq(&String::from_str("1")),
            (Value::True, Value::True) => true,
            (Value::False, Value::Num(y)) => *y == 0,
            (Value::False, Value::Str(t)) => t.eq(&String::from_str("0")),
            (Value::False, Value::False) => true,
            (Value::Undefined, Value::Undefined) => true,
            (Value::NaN, Value::NaN) => true,
            _ => false,
        }
    }
}

impl vstd::std_specs::cmp::PartialEqSpecImpl for Value {
    open spec fn obeys_eq_spec() -> bool {
        true
    }

    open spec fn eq_spec(&self, other: &Value) -> bool {
        spec_eq(self@, other@)
    }
}

impl From<isize> for Value {
    fn from(n: isize) -> Self {
        Value::Num(n)
    }
}

impl vstd::std_specs::convert::FromSpecImpl<isize> for Value {
    open spec fn obeys_from_spec() -> bool {
        true
    }

    open spec fn from_spec(n: isize) -> Value {
        Value::Num(n)
    }
}

impl From<bool> for Value {
    fn from(b: bool) -> Self {
        if b {
            Value::True
        } else {
            Value::False
        }
    }
}

impl vstd::std_specs::convert::FromSpecImpl<bool> for Value {
    open spec fn obeys_from_spec() -> bool {
        true
    }

    open spec fn from_spec(b: bool) -> Value {
        if b {
            Value::True
        } else {
            Value::False
        }
    }
}

impl From<String> for Value {
    fn from(s: String) -> Self {
        Value::Str(s)
    }
}

impl vstd::std_specs::convert::FromSpecImpl<String> for Value {
    open spec fn obeys_from_spec() -> bool {
        true
    }

    open spec fn from_spec(s: String) -> Value {
        Value::Str(s)
    }
}

impl From<&str> for Value {
    fn from(s: &str) -> Self {
        Value::Str(String::from_str(s))
    }
}

/// The fresh string this conversion builds cannot be named in specification,
/// so the conversion carries no contract; contracts use `Value::Str` with an
/// owned string instead.
impl vstd::std_specs::convert::FromSpecImpl<&str> for Value {
    open spec fn obeys_from_spec() -> bool {
        false
    }

    open spec fn from_spec(s: &str) -> Value {
        choose|v: Value| v@ == ValueModel::Str(s@)
    }
}

impl TryFrom<usize> for Value {
    type Error = core::num::TryFromIntError;

    fn try_from(n: usize) -> Result<Self, Self::Error> {
        match isize::try_from(n) {
            Ok(i) => Ok(Value::Num(i)),
            Err(e) => Err(e),
        }
    }
}

/// The error value of a failed narrowing cannot be named in specification,
/// so the conversion carries no contract; it yields `Num` of the value
/// exactly when the value fits in the signed machine word.
impl vstd::std_specs::convert::TryFromSpecImpl<usize> for Value {
    open spec fn obeys_try_from_spec() -> bool {
        false
    }

    open spec fn try_from_spec(v: usize) -> Result<Value, core::num::TryFromIntError> {
        if v <= isize::MAX {
            Ok(Value::Num(v as isize))
        } else {
            Err(vstd::pervasive::arbitrary())
        }
    }
}

} // verus!
