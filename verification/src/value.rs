//! Runtime values.
use vstd::prelude::*;
use crate::number::bits_equal;
use crate::number::number_eq;
use crate::text::hexadecimal;
use crate::text::hexadecimal_value;
use crate::text::lemma_hexadecimal_round_trip;
use crate::text::lemma_hexadecimal_value_bound;
use crate::text::lemma_hexadecimal_value_rejects;
use crate::text::lemma_sixteen_digits_hold_u64;
use crate::text::push_hexadecimal;
use crate::text::read_digit;
use crate::text::sixteen_to;

verus! {

/// What sort of value a `Value` is, without its payload.
#[derive(Clone, Copy, Debug, PartialEq, Eq, Structural)]
pub enum ValueKind {
    Nil,
    Boolean,
    Number,
}

/// A runtime value. A number is held as the bit pattern of its double.
///
/// `==` on values is identity of representation; the language's own equality
/// is `Value::equals`.
#[derive(Clone, Copy, Debug, PartialEq, Eq, Structural)]
pub enum Value {
    Nil,
    Boolean(bool),
    Number(u64),
}

impl Default for Value {
    fn default() -> (r: Value)
        ensures
            r == Value::Nil,
    {
        Value::Nil
    }
}

impl Value {
    /// The kind of this value.
    pub open spec fn kind_of(self) -> ValueKind {
        match self {
            Value::Nil => ValueKind::Nil,
            Value::Boolean(_) => ValueKind::Boolean,
            Value::Number(_) => ValueKind::Number,
        }
    }

    /// Truthiness: `Nil` and `false` are falsy, every other value is truthy.
    pub open spec fn truthy(self) -> bool {
        match self {
            Value::Nil => false,
            Value::Boolean(b) => b,
            Value::Number(_) => true,
        }
    }

    /// The language's equality: values of different kinds are never equal,
    /// numbers are equal as doubles.
    pub open spec fn equal_to(self, other: Value) -> bool {
        match (self, other) {
            (Value::Nil, Value::Nil) => true,
            (Value::Boolean(a), Value::Boolean(b)) => a == b,
            (Value::Number(a), Value::Number(b)) => number_eq(a, b),
            _ => false,
        }
    }

    /// How the value is written: `nil`, `true`, `false`, and for a number
    /// `0x` and the sixteen hexadecimal digits of its bit pattern, which
    /// tell any two doubles apart.
    pub open spec fn text(self) -> Seq<char> {
        match self {
            Value::Nil => "nil"@,
            Value::Boolean(true) => "true"@,
            Value::Boolean(false) => "false"@,
            Value::Number(bits) => "0x"@ + hexadecimal(bits as nat, 16),
        }
    }

    /// The value that a text stands for, if it is written as `text` writes one.
    pub open spec fn parsed(text: Seq<char>) -> Option<Value> {
        if text == "nil"@ {
            Some(Value::Nil)
        } else if text == "true"@ {
            Some(Value::Boolean(true))
        } else if text == "false"@ {
            Some(Value::Boolean(false))
        } else if text.len() == 18 && text[0] == '0' && text[1] == 'x' {
            match hexadecimal_value(text.subrange(2, 18)) {
                Some(n) => Some(Value::Number(n as u64)),
                None => None,
            }
        } else {
            None
        }
    }

    pub fn kind(&self) -> (r: ValueKind)
        ensures
            r == self.kind_of(),
    {
        match self {
            Value::Nil => ValueKind::Nil,
            Value::Boolean(_) => ValueKind::Boolean,
            Value::Number(_) => ValueKind::Number,
        }
    }

    pub fn is_truthy(&self) -> (r: bool)
        ensures
            r == self.truthy(),
    {
        match self {
            Value::Nil => false,
            Value::Boolean(b) => *b,
            Value::Number(_) => true,
        }
    }

    pub fn equals(&self, other: &Value) -> (r: bool)
        ensures
            r == self.equal_to(*other),
    {
        match (self, other) {
            (Value::Nil, Value::Nil) => true,
            (Value::Boolean(a), Value::Boolean(b)) => *a == *b,
            (Value::Number(a), Value::Number(b)) => bits_equal(*a, *b),
            _ => false,
        }
    }

    /// Writes the value as text.
    pub fn to_text(&self) -> (r: String)
        ensures
            r@ == self.text(),
    {
        match self {
            Value::Nil => String::from_str("nil"),
            Value::Boolean(true) => String::from_str("true"),
            Value::Boolean(false) => String::from_str("false"),
            Value::Number(bits) => {
                let mut out = String::from_str("0x");
                push_hexadecimal(&mut out, *bits, 16);
                out
            },
        }
    }

    /// Reads a value from text; `None` for a text that `to_text` never writes.
    pub fn parse(text: &str) -> (r: Option<Value>)
        ensures
            r == Value::parsed(text@),
    {
        proof {
            reveal_strlit("nil");
            reveal_strlit("true");
            reveal_strlit("false");
        }
        let n: usize = text.unicode_len();
        if n == 3 {
            if text.get_char(0) == 'n' && text.get_char(1) == 'i' && text.get_char(2) == 'l' {
                assert(text@ =~= "nil"@);
                Some(Value::Nil)
            } else {
                None
            }
        } else if n == 4 {
            if text.get_char(0) == 't' && text.get_char(1) == 'r' && text.get_char(2) == 'u'
                && text.get_char(3) == 'e' {
                assert(text@ =~= "true"@);
                Some(Value::Boolean(true))
            } else {
                None
            }
        } else if n == 5 {
            if text.get_char(0) == 'f' && text.get_char(1) == 'a' && text.get_char(2) == 'l'
                && text.get_char(3) == 's' && text.get_char(4) == 'e' {
                assert(text@ =~= "false"@);
                Some(Value::Boolean(false))
            } else {
                None
            }
        } else if n == 18 {
            if text.get_char(0) == '0' && text.get_char(1) == 'x' {
                let ghost digits = text@.subrange(2, 18);
                let mut bits: u64 = 0;
                let mut i: usize = 2;
                while i < 18
                    invariant
                        2 <= i <= 18,
                        text@.len() == 18,
                        text@[0] == '0',
                        text@[1] == 'x',
                        digits == text@.subrange(2, 18),
                        hexadecimal_value(text@.subrange(2, i as int)) == Some(bits as nat),
                    decreases 18 - i,
                {
                    let ghost before = text@.subrange(2, i as int);
                    let ghost after = text@.subrange(2, i + 1);
                    proof {
                        assert(after.drop_last() =~= before);
                        lemma_hexadecimal_value_bound(before);
                        lemma_sixteen_grows((i - 2) as nat, 15);
                        reveal_with_fuel(sixteen_to, 16);
                    }
                    match read_digit(text.get_char(i)) {
                        Some(d) => {
                            bits = bits * 16 + d as u64;
                        },
                        None => {
                            proof {
                                reveal_strlit("nil");
                                reveal_strlit("true");
                                reveal_strlit("false");
                                assert(digits[i - 2] == text@[i as int]);
                                lemma_hexadecimal_value_rejects(digits, i - 2);
                            }
                            return None;
                        },
                    }
                    i += 1;
                }
                assert(text@.subrange(2, 18) =~= digits);
                Some(Value::Number(bits))
            } else {
                None
            }
        } else {
            None
        }
    }

    /// The bit pattern of a number, `None` for any other value.
    pub fn as_number(&self) -> (r: Option<u64>)
        ensures
            r == (match *self {
                Value::Number(bits) => Some(bits),
                _ => None,
            }),
    {
        match self {
            Value::Number(bits) => Some(*bits),
            _ => None,
        }
    }
}

proof fn lemma_sixteen_grows(low: nat, high: nat)
    requires
        low <= high,
    ensures
        sixteen_to(low) <= sixteen_to(high),
    decreases high,
{
    if low < high {
        lemma_sixteen_grows(low, (high - 1) as nat);
    }
}

/// Reading what was written gives the value back, whatever the value: a
/// number comes back bit for bit.
pub proof fn lemma_text_round_trip(value: Value)
    ensures
        Value::parsed(value.text()) == Some(value),
{
    reveal_strlit("nil");
    reveal_strlit("true");
    reveal_strlit("false");
    reveal_strlit("0x");
    match value {
        Value::Number(bits) => {
            let digits = hexadecimal(bits as nat, 16);
            let text = value.text();
            lemma_sixteen_digits_hold_u64(bits);
            lemma_hexadecimal_round_trip(bits as nat, 16);
            assert(text.len() == 18);
            assert(text.subrange(2, 18) =~= digits);
        },
        _ => {},
    }
}

/// A value of one kind never equals a value of another kind.
pub proof fn lemma_kinds_differ_never_equal(a: Value, b: Value)
    requires
        a.kind_of() != b.kind_of(),
    ensures
        !a.equal_to(b),
{
}

/// Equality does not depend on the order of its operands.
pub proof fn lemma_equality_symmetric(a: Value, b: Value)
    ensures
        a.equal_to(b) == b.equal_to(a),
{
}

} // verus!
