//! Closed ranges of a scalar value, written `lo-hi` on the wire, or as a
//! single value when both ends coincide.

use vstd::prelude::*;

use crate::RosError;
use crate::ValueFormat;
use crate::text::spec_find_char;
use crate::text::find_char;
use crate::text::push_char;
use crate::text::substring;
use crate::value::RosValue;
use vstd::string::StrSliceExecFns;
use vstd::string::StringExecFns;

verus! {

/// A closed range: every value from `start` to `end`, both included.
#[derive(Debug, Clone, Copy)]
pub struct ValueRange<T> {
    pub start: T,
    pub end: T,
}

impl<T: View> View for ValueRange<T> {
    type V = ValueRange<T::V>;

    open spec fn view(&self) -> ValueRange<T::V> {
        ValueRange { start: self.start@, end: self.end@ }
    }
}

/// What a range string means: split at the first `-`; without one, both
/// ends are the single value.
pub open spec fn spec_decode_range<T: RosValue>(s: Seq<char>) -> Option<ValueRange<T::V>> {
    match spec_find_char(s, '-') {
        Some(i) => match (T::decode_spec(s.take(i)), T::decode_spec(s.skip(i + 1))) {
            (Some(lo), Some(hi)) => Some(ValueRange { start: lo, end: hi }),
            _ => None,
        },
        None => match T::decode_spec(s) {
            Some(v) => Some(ValueRange { start: v, end: v }),
            None => None,
        },
    }
}

/// How a range is written: one value if the ends are equal, else `lo-hi`.
pub open spec fn spec_encode_range<T: RosValue>(v: ValueRange<T::V>, f: ValueFormat) -> Seq<
    char,
> {
    if T::veq(v.start, v.end) {
        T::encode_spec(v.start, f)
    } else {
        T::encode_spec(v.start, f) + seq!['-'] + T::encode_spec(v.end, f)
    }
}

impl<T: RosValue + Copy> RosValue for ValueRange<T> {
    open spec fn decode_spec(s: Seq<char>) -> Option<ValueRange<T::V>> {
        spec_decode_range::<T>(s)
    }

    open spec fn encode_spec(v: ValueRange<T::V>, f: ValueFormat) -> Seq<char> {
        spec_encode_range::<T>(v, f)
    }

    open spec fn veq(a: ValueRange<T::V>, b: ValueRange<T::V>) -> bool {
        T::veq(a.start, b.start) && T::veq(a.end, b.end)
    }

    proof fn veq_reflexive(a: ValueRange<T::V>) {
        T::veq_reflexive(a.start);
        T::veq_reflexive(a.end);
    }

    proof fn veq_symmetric(a: ValueRange<T::V>, b: ValueRange<T::V>) {
        T::veq_symmetric(a.start, b.start);
        T::veq_symmetric(a.end, b.end);
    }

    proof fn veq_transitive(a: ValueRange<T::V>, b: ValueRange<T::V>, c: ValueRange<T::V>) {
        T::veq_transitive(a.start, b.start, c.start);
        T::veq_transitive(a.end, b.end, c.end);
    }

    fn from_api(value: &str) -> (r: Result<Self, RosError>) {
        let len = value.unicode_len();
        match find_char(value, '-') {
            Some(i) => {
                let lo_text = substring(value, 0, i);
                let hi_text = substring(value, i + 1, len);
                proof {
                    assert(lo_text@ =~= value@.take(i as int));
                    assert(hi_text@ =~= value@.skip(i + 1));
                }
                let lo = match T::from_api(lo_text.as_str()) {
                    Ok(v) => v,
                    Err(e) => {
                        return Err(e);
                    },
                };
                let hi = match T::from_api(hi_text.as_str()) {
                    Ok(v) => v,
                    Err(e) => {
                        return Err(e);
                    },
                };
                Ok(ValueRange { start: lo, end: hi })
            },
            None => match T::from_api(value) {
                Ok(v) => Ok(ValueRange { start: v, end: v }),
                Err(e) => Err(e),
            },
        }
    }

    fn to_api(&self, format: &ValueFormat) -> (r: String) {
        if self.start.eq_value(&self.end) {
            self.start.to_api(format)
        } else {
            let mut out = self.start.to_api(format);
            push_char(&mut out, '-');
            let hi = self.end.to_api(format);
            out.append(hi.as_str());
            proof {
                assert(out@ =~= T::encode_spec(self.start@, *format) + seq!['-']
                    + T::encode_spec(self.end@, *format));
            }
            out
        }
    }

    fn eq_value(&self, other: &Self) -> (r: bool) {
        self.start.eq_value(&other.start) && self.end.eq_value(&other.end)
    }
}

} // verus!
