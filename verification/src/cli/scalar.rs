//! Values that are bound to a statement from the shell.
use crate::encode::{json_quote, json_string};
use crate::runtime::db::{signed, signed_text};
use crate::text::{same, to_chars};
use vstd::prelude::*;

verus! {

/// A value that is bound to a statement.
#[derive(Debug, PartialEq)]
pub enum Scalar {
    Integer(i64),
    /// A real number, as JSON writes it.
    Real(String),
    Flag(bool),
    Null,
    Text(String),
}

/// Whether a character is a decimal digit.
pub open spec fn is_digit(c: char) -> bool {
    '0' <= c <= '9'
}

/// The number that decimal digits stand for.
pub open spec fn digits_value(s: Seq<char>) -> nat
    decreases s.len(),
{
    if s.len() == 0 {
        0
    } else {
        digits_value(s.drop_last()) * 10 + (s.last() as nat - '0' as nat) as nat
    }
}

/// A text without the sign it begins with, if it does.
pub open spec fn unsigned(s: Seq<char>) -> Seq<char> {
    if s.len() > 0 && (s[0] == '-' || s[0] == '+') {
        s.skip(1)
    } else {
        s
    }
}

/// Whether a text is decimal digits, at least one.
pub open spec fn all_digits(s: Seq<char>) -> bool {
    s.len() > 0 && forall|i: int| 0 <= i < s.len() ==> is_digit(#[trigger] s[i])
}

/// The number that digits behind an optional sign stand for.
pub open spec fn signed_value(s: Seq<char>) -> Option<int> {
    if !all_digits(unsigned(s)) {
        None
    } else if s[0] == '-' {
        Some(-(digits_value(unsigned(s)) as int))
    } else {
        Some(digits_value(unsigned(s)) as int)
    }
}

/// The integer that a text stands for, where it is one that 64 bits can hold.
pub open spec fn integer_of(s: Seq<char>) -> Option<int> {
    match signed_value(s) {
        Some(n) => if i64::MIN <= n <= i64::MAX {
            Some(n)
        } else {
            None
        },
        None => None,
    }
}

/// The integer that a text stands for, where it is one.
pub fn parse_integer(s: &str) -> (r: Option<i64>)
    ensures
        match r {
            Some(n) => integer_of(s@) == Some(n as int),
            None => integer_of(s@) is None,
        },
{
    let v = to_chars(s);
    if v.len() == 0 {
        return None;
    }
    let negative = v[0] == '-';
    let start: usize = if v[0] == '-' || v[0] == '+' {
        1
    } else {
        0
    };
    let ghost bare = unsigned(s@);
    proof {
        assert(s@.skip(0) =~= s@);
        assert(bare == s@.skip(start as int));
    }
    if start == v.len() {
        return None;
    }
    let mut value: u64 = 0;
    let mut too_large = false;
    let mut i: usize = start;
    proof {
        assert(bare.take(0) =~= Seq::<char>::empty());
    }
    while i < v.len()
        invariant
            start <= i <= v.len(),
            start <= 1,
            v@ == s@,
            bare == unsigned(s@),
            bare == s@.skip(start as int),
            bare.len() > 0,
            forall|j: int| 0 <= j < i - start ==> is_digit(#[trigger] bare[j]),
            too_large ==> digits_value(bare.take(i - start)) > 9_223_372_036_854_775_808,
            !too_large ==> value == digits_value(bare.take(i - start)) && value
                <= 9_223_372_036_854_775_808,
        decreases v.len() - i,
    {
        let c = v[i];
        let ghost k = i - start;
        assert(bare[k] == c);
        if !('0' <= c && c <= '9') {
            assert(!is_digit(bare[k]));
            return None;
        }
        proof {
            assert(bare.take(k + 1).drop_last() =~= bare.take(k));
            assert(bare.take(k + 1).last() == c);
        }
        let digit: u64 = c as u64 - 48;
        if !too_large {
            if value > 922_337_203_685_477_580 || (value == 922_337_203_685_477_580 && digit > 8) {
                too_large = true;
            } else {
                value = value * 10 + digit;
            }
        }
        i += 1;
    }
    proof {
        assert(bare.take(bare.len() as int) =~= bare);
    }
    if too_large {
        return None;
    }
    if negative {
        if value == 9_223_372_036_854_775_808 {
            Some(i64::MIN)
        } else {
            Some(-(value as i64))
        }
    } else if value <= 9_223_372_036_854_775_807 {
        Some(value as i64)
    } else {
        None
    }
}

/// Whether a value is what a text is bound as. Numbers and booleans are bound as
/// such, `null` as NULL, everything else as text. `number` is the text as a real
/// number in JSON, where it is one.
pub open spec fn is_scalar(scalar: Scalar, raw: Seq<char>, number: Option<Seq<char>>) -> bool {
    match integer_of(raw) {
        Some(n) => scalar matches Scalar::Integer(i) && i == n,
        None => match number {
            Some(text) => scalar matches Scalar::Real(t) && t@ == text,
            None => if raw == "true"@ {
                scalar == Scalar::Flag(true)
            } else if raw == "false"@ {
                scalar == Scalar::Flag(false)
            } else if raw == "null"@ {
                scalar is Null
            } else {
                scalar matches Scalar::Text(t) && t@ == raw
            },
        },
    }
}

/// What a text from the shell is bound as.
pub fn json_scalar(raw: &str, number: Option<String>) -> (r: Scalar)
    ensures
        is_scalar(
            r,
            raw@,
            match number {
                Some(text) => Some(text@),
                None => None,
            },
        ),
{
    if let Some(n) = parse_integer(raw) {
        return Scalar::Integer(n);
    }
    if let Some(text) = number {
        return Scalar::Real(text);
    }
    if same(raw, "true") {
        Scalar::Flag(true)
    } else if same(raw, "false") {
        Scalar::Flag(false)
    } else if same(raw, "null") {
        Scalar::Null
    } else {
        Scalar::Text(raw.to_owned())
    }
}

/// A value in JSON.
pub open spec fn scalar_json(scalar: Scalar) -> Seq<char> {
    match scalar {
        Scalar::Integer(i) => signed(i as int),
        Scalar::Real(text) => text@,
        Scalar::Flag(b) => if b {
            "true"@
        } else {
            "false"@
        },
        Scalar::Null => "null"@,
        Scalar::Text(text) => json_string(text@),
    }
}

/// A value in JSON.
pub fn scalar_text(scalar: &Scalar) -> (r: String)
    ensures
        r@ == scalar_json(*scalar),
{
    match scalar {
        Scalar::Integer(i) => signed_text(*i),
        Scalar::Real(text) => text.clone(),
        Scalar::Flag(b) => if *b {
            "true".to_owned()
        } else {
            "false".to_owned()
        },
        Scalar::Null => "null".to_owned(),
        Scalar::Text(text) => json_quote(text.as_str()),
    }
}

} // verus!
