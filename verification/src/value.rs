//! The value codec: per-type conversion between wire-format text and typed
//! in-memory values, stated over each type's mathematical view.

use vstd::prelude::*;

use crate::RosError;
use crate::ValueFormat;
use crate::text::spec_parse_dec;
use crate::text::spec_parse_hex;
use crate::text::spec_dec_digits;
use crate::text::parse_u64_dec;
use crate::text::parse_u64_hex;
use crate::text::format_u64;
use crate::text::str_eq;
use vstd::string::StrSliceExecFns;
use vstd::string::StringExecFns;

verus! {

/// A type that can live in a resource field: it can be decoded from the wire
/// text, encoded back (possibly differently per `ValueFormat`), and compared.
///
/// All contracts speak of `Self::V`, the mathematical view of the value:
/// `decode_spec` is the decode function, `encode_spec` the encode function,
/// and `veq` the equality that modification detection uses (plain view
/// equality everywhere except for set values, which compare as sets).
pub trait RosValue: View + Sized {
    spec fn decode_spec(s: Seq<char>) -> Option<Self::V>;

    spec fn encode_spec(v: Self::V, f: ValueFormat) -> Seq<char>;

    spec fn veq(a: Self::V, b: Self::V) -> bool;

    proof fn veq_reflexive(a: Self::V)
        ensures
            Self::veq(a, a),
    ;

    proof fn veq_symmetric(a: Self::V, b: Self::V)
        ensures
            Self::veq(a, b) == Self::veq(b, a),
    ;

    proof fn veq_transitive(a: Self::V, b: Self::V, c: Self::V)
        ensures
            Self::veq(a, b) && Self::veq(b, c) ==> Self::veq(a, c),
    ;

    fn from_api(value: &str) -> (r: Result<Self, RosError>)
        ensures
            match r {
                Ok(v) => Self::decode_spec(value@) == Some(v@),
                Err(_) => Self::decode_spec(value@) is None,
            },
    ;

    fn to_api(&self, format: &ValueFormat) -> (r: String)
        ensures
            r@ == Self::encode_spec(self@, *format),
    ;

    fn eq_value(&self, other: &Self) -> (r: bool)
        ensures
            r == Self::veq(self@, other@),
    ;
}

pub open spec fn spec_decode_bool(s: Seq<char>) -> Option<bool> {
    if s == "no"@ || s == "false"@ {
        Some(false)
    } else if s == "yes"@ || s == "true"@ {
        Some(true)
    } else {
        None
    }
}

pub open spec fn spec_encode_bool(v: bool, f: ValueFormat) -> Seq<char> {
    match f {
        ValueFormat::Api => if v { "true"@ } else { "false"@ },
        ValueFormat::Cli => if v { "yes"@ } else { "no"@ },
    }
}

impl RosValue for bool {
    open spec fn decode_spec(s: Seq<char>) -> Option<bool> {
        spec_decode_bool(s)
    }

    open spec fn encode_spec(v: bool, f: ValueFormat) -> Seq<char> {
        spec_encode_bool(v, f)
    }

    open spec fn veq(a: bool, b: bool) -> bool {
        a == b
    }

    proof fn veq_reflexive(a: bool) {
    }

    proof fn veq_symmetric(a: bool, b: bool) {
    }

    proof fn veq_transitive(a: bool, b: bool, c: bool) {
    }

    fn from_api(value: &str) -> (r: Result<Self, RosError>) {
        if str_eq(value, "no") || str_eq(value, "false") {
            Ok(false)
        } else if str_eq(value, "yes") || str_eq(value, "true") {
            Ok(true)
        } else {
            Err(RosError::ParseBoolError(value.to_owned()))
        }
    }

    fn to_api(&self, format: &ValueFormat) -> (r: String) {
        match format {
            ValueFormat::Api => if *self {
                "true".to_owned()
            } else {
                "false".to_owned()
            },
            ValueFormat::Cli => if *self {
                "yes".to_owned()
            } else {
                "no".to_owned()
            },
        }
    }

    fn eq_value(&self, other: &Self) -> (r: bool) {
        *self == *other
    }
}

/// The number an unsigned field decodes from `s`: a `0x`-prefixed string is
/// read as hexadecimal, anything else as decimal; values above `max` are
/// rejected.
pub open spec fn spec_decode_uint(s: Seq<char>, max: nat) -> Option<nat> {
    if s.len() >= 2 && s[0] == '0' && s[1] == 'x' {
        match spec_parse_hex(s.skip(2)) {
            Some(v) => if v <= max { Some(v) } else { None },
            None => None,
        }
    } else {
        match spec_parse_dec(s) {
            Some(v) => if v <= max { Some(v) } else { None },
            None => None,
        }
    }
}

/// Decodes an unsigned integer no larger than `max` (decimal or `0x` hex).
pub fn parse_uint(value: &str, max: u64) -> (r: Option<u64>)
    ensures
        match r {
            Some(n) => spec_decode_uint(value@, max as nat) == Some(n as nat),
            None => spec_decode_uint(value@, max as nat) is None,
        },
{
    let len = value.unicode_len();
    let n = if len >= 2 && value.get_char(0) == '0' && value.get_char(1) == 'x' {
        let rest = value.substring_char(2, len);
        proof {
            assert(rest@ =~= value@.skip(2));
        }
        parse_u64_hex(rest)
    } else {
        parse_u64_dec(value)
    };
    match n {
        Some(n) => if n <= max {
            Some(n)
        } else {
            None
        },
        None => None,
    }
}

impl RosValue for u8 {
    open spec fn decode_spec(s: Seq<char>) -> Option<u8> {
        match spec_decode_uint(s, 0xFF) {
            Some(v) => Some(v as u8),
            None => None,
        }
    }

    open spec fn encode_spec(v: u8, f: ValueFormat) -> Seq<char> {
        spec_dec_digits(v as nat)
    }

    open spec fn veq(a: u8, b: u8) -> bool {
        a == b
    }

    proof fn veq_reflexive(a: u8) {
    }

    proof fn veq_symmetric(a: u8, b: u8) {
    }

    proof fn veq_transitive(a: u8, b: u8, c: u8) {
    }

    fn from_api(value: &str) -> (r: Result<Self, RosError>) {
        match parse_uint(value, 0xFF) {
            Some(n) => Ok(n as u8),
            None => Err(RosError::ParseIntError(value.to_owned())),
        }
    }

    fn to_api(&self, format: &ValueFormat) -> (r: String) {
        format_u64(*self as u64)
    }

    fn eq_value(&self, other: &Self) -> (r: bool) {
        *self == *other
    }
}

impl RosValue for u16 {
    open spec fn decode_spec(s: Seq<char>) -> Option<u16> {
        match spec_decode_uint(s, 0xFFFF) {
            Some(v) => Some(v as u16),
            None => None,
        }
    }

    open spec fn encode_spec(v: u16, f: ValueFormat) -> Seq<char> {
        spec_dec_digits(v as nat)
    }

    open spec fn veq(a: u16, b: u16) -> bool {
        a == b
    }

    proof fn veq_reflexive(a: u16) {
    }

    proof fn veq_symmetric(a: u16, b: u16) {
    }

    proof fn veq_transitive(a: u16, b: u16, c: u16) {
    }

    fn from_api(value: &str) -> (r: Result<Self, RosError>) {
        match parse_uint(value, 0xFFFF) {
            Some(n) => Ok(n as u16),
            None => Err(RosError::ParseIntError(value.to_owned())),
        }
    }

    fn to_api(&self, format: &ValueFormat) -> (r: String) {
        format_u64(*self as u64)
    }

    fn eq_value(&self, other: &Self) -> (r: bool) {
        *self == *other
    }
}

impl RosValue for u32 {
    open spec fn decode_spec(s: Seq<char>) -> Option<u32> {
        match spec_decode_uint(s, 0xFFFF_FFFF) {
            Some(v) => Some(v as u32),
            None => None,
        }
    }

    open spec fn encode_spec(v: u32, f: ValueFormat) -> Seq<char> {
        spec_dec_digits(v as nat)
    }

    open spec fn veq(a: u32, b: u32) -> bool {
        a == b
    }

    proof fn veq_reflexive(a: u32) {
    }

    proof fn veq_symmetric(a: u32, b: u32) {
    }

    proof fn veq_transitive(a: u32, b: u32, c: u32) {
    }

    fn from_api(value: &str) -> (r: Result<Self, RosError>) {
        match parse_uint(value, 0xFFFF_FFFF) {
            Some(n) => Ok(n as u32),
            None => Err(RosError::ParseIntError(value.to_owned())),
        }
    }

    fn to_api(&self, format: &ValueFormat) -> (r: String) {
        format_u64(*self as u64)
    }

    fn eq_value(&self, other: &Self) -> (r: bool) {
        *self == *other
    }
}

impl RosValue for u64 {
    open spec fn decode_spec(s: Seq<char>) -> Option<u64> {
        match spec_parse_dec(s) {
            Some(v) => if v <= u64::MAX { Some(v as u64) } else { None },
            None => None,
        }
    }

    open spec fn encode_spec(v: u64, f: ValueFormat) -> Seq<char> {
        spec_dec_digits(v as nat)
    }

    open spec fn veq(a: u64, b: u64) -> bool {
        a == b
    }

    proof fn veq_reflexive(a: u64) {
    }

    proof fn veq_symmetric(a: u64, b: u64) {
    }

    proof fn veq_transitive(a: u64, b: u64, c: u64) {
    }

    fn from_api(value: &str) -> (r: Result<Self, RosError>) {
        match parse_u64_dec(value) {
            Some(n) => Ok(n),
            None => Err(RosError::ParseIntError(value.to_owned())),
        }
    }

    fn to_api(&self, format: &ValueFormat) -> (r: String) {
        format_u64(*self)
    }

    fn eq_value(&self, other: &Self) -> (r: bool) {
        *self == *other
    }
}

/// A signed byte decodes as an optional `-` sign before the digits, or as
/// `0x`-prefixed hex (never negative).
pub open spec fn spec_decode_i8(s: Seq<char>) -> Option<i8> {
    if s.len() >= 1 && s[0] == '-' {
        match spec_parse_dec(s.skip(1)) {
            Some(v) => if v <= 128 { Some((-(v as int)) as i8) } else { None },
            None => None,
        }
    } else {
        match spec_decode_uint(s, 127) {
            Some(v) => Some(v as i8),
            None => None,
        }
    }
}

impl RosValue for i8 {
    open spec fn decode_spec(s: Seq<char>) -> Option<i8> {
        spec_decode_i8(s)
    }

    open spec fn encode_spec(v: i8, f: ValueFormat) -> Seq<char> {
        if v < 0 {
            seq!['-'] + spec_dec_digits((-(v as int)) as nat)
        } else {
            spec_dec_digits(v as nat)
        }
    }

    open spec fn veq(a: i8, b: i8) -> bool {
        a == b
    }

    proof fn veq_reflexive(a: i8) {
    }

    proof fn veq_symmetric(a: i8, b: i8) {
    }

    proof fn veq_transitive(a: i8, b: i8, c: i8) {
    }

    fn from_api(value: &str) -> (r: Result<Self, RosError>) {
        let len = value.unicode_len();
        if len >= 1 && value.get_char(0) == '-' {
            let rest = value.substring_char(1, len);
            proof {
                assert(rest@ =~= value@.skip(1));
            }
            match parse_u64_dec(rest) {
                Some(n) => if n <= 128 {
                    Ok((-(n as i64)) as i8)
                } else {
                    Err(RosError::ParseIntError(value.to_owned()))
                },
                None => Err(RosError::ParseIntError(value.to_owned())),
            }
        } else {
            match parse_uint(value, 127) {
                Some(n) => Ok(n as i8),
                None => Err(RosError::ParseIntError(value.to_owned())),
            }
        }
    }

    fn to_api(&self, format: &ValueFormat) -> (r: String) {
        if *self < 0 {
            let mut s = String::new();
            crate::text::push_char(&mut s, '-');
            let digits = format_u64((-(*self as i64)) as u64);
            let r = s.concat(digits.as_str());
            proof {
                assert(r@ =~= seq!['-'] + spec_dec_digits((-(*self as int)) as nat));
            }
            r
        } else {
            format_u64(*self as u64)
        }
    }

    fn eq_value(&self, other: &Self) -> (r: bool) {
        *self == *other
    }
}

impl RosValue for String {
    open spec fn decode_spec(s: Seq<char>) -> Option<Seq<char>> {
        Some(s)
    }

    open spec fn encode_spec(v: Seq<char>, f: ValueFormat) -> Seq<char> {
        v
    }

    open spec fn veq(a: Seq<char>, b: Seq<char>) -> bool {
        a == b
    }

    proof fn veq_reflexive(a: Seq<char>) {
    }

    proof fn veq_symmetric(a: Seq<char>, b: Seq<char>) {
    }

    proof fn veq_transitive(a: Seq<char>, b: Seq<char>, c: Seq<char>) {
    }

    fn from_api(value: &str) -> (r: Result<Self, RosError>) {
        Ok(value.to_owned())
    }

    fn to_api(&self, format: &ValueFormat) -> (r: String) {
        self.clone()
    }

    fn eq_value(&self, other: &Self) -> (r: bool) {
        str_eq(self.as_str(), other.as_str())
    }
}

/// An optional number: the word `none` stands for the absent value.
impl RosValue for Option<u32> {
    open spec fn decode_spec(s: Seq<char>) -> Option<Option<u32>> {
        if s == "none"@ {
            Some(None)
        } else {
            match spec_decode_uint(s, 0xFFFF_FFFF) {
                Some(v) => Some(Some(v as u32)),
                None => None,
            }
        }
    }

    open spec fn encode_spec(v: Option<u32>, f: ValueFormat) -> Seq<char> {
        match v {
            Some(n) => spec_dec_digits(n as nat),
            None => "none"@,
        }
    }

    open spec fn veq(a: Option<u32>, b: Option<u32>) -> bool {
        a == b
    }

    proof fn veq_reflexive(a: Option<u32>) {
    }

    proof fn veq_symmetric(a: Option<u32>, b: Option<u32>) {
    }

    proof fn veq_transitive(a: Option<u32>, b: Option<u32>, c: Option<u32>) {
    }

    fn from_api(value: &str) -> (r: Result<Self, RosError>) {
        if str_eq(value, "none") {
            Ok(None)
        } else {
            match parse_uint(value, 0xFFFF_FFFF) {
                Some(n) => Ok(Some(n as u32)),
                None => Err(RosError::ParseIntError(value.to_owned())),
            }
        }
    }

    fn to_api(&self, format: &ValueFormat) -> (r: String) {
        match self {
            Some(n) => format_u64(*n as u64),
            None => "none".to_owned(),
        }
    }

    fn eq_value(&self, other: &Self) -> (r: bool) {
        match (self, other) {
            (None, None) => true,
            (Some(a), Some(b)) => *a == *b,
            _ => false,
        }
    }
}

/// A value that may instead be left to the device to choose (`auto`).
#[derive(Debug, Clone)]
pub enum Auto<V> {
    Auto,
    Value(V),
}

impl<V: View> View for Auto<V> {
    type V = Auto<V::V>;

    open spec fn view(&self) -> Auto<V::V> {
        match self {
            Auto::Auto => Auto::Auto,
            Auto::Value(v) => Auto::Value(v@),
        }
    }
}

impl<V: RosValue> RosValue for Auto<V> {
    open spec fn decode_spec(s: Seq<char>) -> Option<Auto<V::V>> {
        if s == "auto"@ {
            Some(Auto::Auto)
        } else {
            match V::decode_spec(s) {
                Some(v) => Some(Auto::Value(v)),
                None => None,
            }
        }
    }

    open spec fn encode_spec(v: Auto<V::V>, f: ValueFormat) -> Seq<char> {
        match v {
            Auto::Auto => "auto"@,
            Auto::Value(inner) => V::encode_spec(inner, f),
        }
    }

    open spec fn veq(a: Auto<V::V>, b: Auto<V::V>) -> bool {
        match (a, b) {
            (Auto::Auto, Auto::Auto) => true,
            (Auto::Value(x), Auto::Value(y)) => V::veq(x, y),
            _ => false,
        }
    }

    proof fn veq_reflexive(a: Auto<V::V>) {
        match a {
            Auto::Auto => {},
            Auto::Value(x) => V::veq_reflexive(x),
        }
    }

    proof fn veq_symmetric(a: Auto<V::V>, b: Auto<V::V>) {
        match (a, b) {
            (Auto::Value(x), Auto::Value(y)) => V::veq_symmetric(x, y),
            _ => {},
        }
    }

    proof fn veq_transitive(a: Auto<V::V>, b: Auto<V::V>, c: Auto<V::V>) {
        match (a, b, c) {
            (Auto::Value(x), Auto::Value(y), Auto::Value(z)) => V::veq_transitive(x, y, z),
            _ => {},
        }
    }

    fn from_api(value: &str) -> (r: Result<Self, RosError>) {
        if str_eq(value, "auto") {
            Ok(Auto::Auto)
        } else {
            match V::from_api(value) {
                Ok(v) => Ok(Auto::Value(v)),
                Err(e) => Err(e),
            }
        }
    }

    fn to_api(&self, format: &ValueFormat) -> (r: String) {
        match self {
            Auto::Auto => "auto".to_owned(),
            Auto::Value(v) => v.to_api(format),
        }
    }

    fn eq_value(&self, other: &Self) -> (r: bool) {
        match (self, other) {
            (Auto::Auto, Auto::Auto) => true,
            (Auto::Value(a), Auto::Value(b)) => a.eq_value(b),
            _ => false,
        }
    }
}

impl<V: RosValue> Default for Auto<V> {
    fn default() -> (r: Self)
        ensures
            r@ == Auto::<V::V>::Auto,
    {
        Auto::Auto
    }
}

} // verus!
