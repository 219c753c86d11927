//! The per-field change-tracking cell: a typed value next to the wire text
//! it was last decoded from.  A field is modified when its current value no
//! longer equals the decoded original.

use vstd::prelude::*;

use crate::RosError;
use crate::ValueFormat;
use crate::value::RosValue;

verus! {

/// Whether a cell of type `T` accepts this wire text: empty text stands for
/// an absent field and is always accepted; anything else must decode.
pub open spec fn accepts_text<T: RosValue>(value: Seq<char>) -> bool {
    value.len() == 0 || T::decode_spec(value) is Some
}

/// Do two optional values hold equal values (by the type's equality)?
pub open spec fn opt_veq<T: RosValue>(a: Option<T::V>, b: Option<T::V>) -> bool {
    match (a, b) {
        (None, None) => true,
        (Some(x), Some(y)) => T::veq(x, y),
        _ => false,
    }
}

/// A typed field value together with the wire text it came from.
#[derive(Debug, Clone)]
pub struct RosFieldValue<T: RosValue> {
    original_value: String,
    current_value: Option<T>,
}

impl<T: RosValue> RosFieldValue<T> {
    /// The wire text the field was last populated from.
    pub closed spec fn orig(&self) -> Seq<char> {
        self.original_value@
    }

    /// The current value, as its view.
    pub closed spec fn cur(&self) -> Option<T::V> {
        match self.current_value {
            Some(v) => Some(v@),
            None => None,
        }
    }

    /// What the remembered original text decodes to: nothing for empty text
    /// (an absent optional field) or undecodable text.
    pub open spec fn orig_decoded(&self) -> Option<T::V> {
        if self.orig().len() == 0 {
            None
        } else {
            match T::decode_spec(self.orig()) {
                Some(v) => Some(v),
                None => None,
            }
        }
    }

    /// The field is unmodified: its current value equals the decoded
    /// original.
    pub open spec fn unmodified(&self) -> bool {
        opt_veq::<T>(self.orig_decoded(), self.cur())
    }

    /// The text the current value renders to; empty when the field is empty.
    pub open spec fn api_value_spec(&self, f: ValueFormat) -> Seq<char> {
        match self.cur() {
            Some(c) => T::encode_spec(c, f),
            None => Seq::empty(),
        }
    }

    /// What `modified_value` reports: nothing when the field is unmodified,
    /// otherwise the current value's rendering.  Equality of the decoded
    /// values decides, never the rendered text.
    pub open spec fn modified_spec(&self, f: ValueFormat) -> Option<Seq<char>> {
        if self.unmodified() {
            None
        } else {
            Some(self.api_value_spec(f))
        }
    }

    pub fn get(&self) -> (r: &Option<T>)
        ensures
            match r {
                Some(v) => self.cur() == Some(v@),
                None => self.cur() is None,
            },
    {
        &self.current_value
    }

    /// The cell with its value replaced, as a value.
    pub closed spec fn with_set(self, v: T) -> Self {
        RosFieldValue { original_value: self.original_value, current_value: Some(v) }
    }

    pub proof fn lemma_with_set_props(self, v: T)
        ensures
            self.with_set(v).cur() == Some(v@),
            self.with_set(v).orig() == self.orig(),
    {
    }

    /// Replaces the current value, leaving the remembered original alone.
    pub fn set(&mut self, value: T)
        ensures
            *final(self) == old(self).with_set(value),
            final(self).cur() == Some(value@),
            final(self).orig() == old(self).orig(),
    {
        self.current_value = Some(value);
    }

    /// The cell with its value emptied, as a value.
    pub closed spec fn cleared(self) -> Self {
        RosFieldValue { original_value: self.original_value, current_value: None }
    }

    pub proof fn lemma_cleared_props(self)
        ensures
            self.cleared().cur() is None,
            self.cleared().orig() == self.orig(),
    {
    }

    /// Empties the current value, leaving the remembered original alone.
    pub fn clear(&mut self)
        ensures
            *final(self) == old(self).cleared(),
            final(self).cur() is None,
            final(self).orig() == old(self).orig(),
    {
        self.current_value = None;
    }

    pub fn original_value(&self) -> (r: String)
        ensures
            r@ == self.orig(),
    {
        self.original_value.clone()
    }

    pub fn has_value(&self) -> (r: bool)
        ensures
            r == (self.cur() is Some),
    {
        self.current_value.is_some()
    }

    /// Renders the current value in the requested format; an empty field
    /// renders as empty text.
    pub fn api_value(&self, format: &ValueFormat) -> (r: String)
        ensures
            r@ == self.api_value_spec(*format),
    {
        match &self.current_value {
            Some(v) => v.to_api(format),
            None => {
                let r = String::new();
                proof {
                    assert(r@ =~= self.api_value_spec(*format));
                }
                r
            },
        }
    }

    /// Re-derives the current value from the remembered original text.
    /// Fails exactly when non-empty text does not decode; the current value
    /// is then left alone.
    pub fn reset(&mut self) -> (r: Result<(), RosError>)
        ensures
            final(self).orig() == old(self).orig(),
            r is Ok <==> accepts_text::<T>(old(self).orig()),
            match r {
                Ok(_) => final(self).cur() == final(self).orig_decoded()
                    && final(self).unmodified(),
                Err(_) => final(self).cur() == old(self).cur(),
            },
    {
        if self.original_value.as_str().is_empty() {
            self.current_value = None;
            Ok(())
        } else {
            match T::from_api(self.original_value.as_str()) {
                Ok(v) => {
                    self.current_value = Some(v);
                    proof {
                        T::veq_reflexive(v@);
                    }
                    Ok(())
                },
                Err(e) => Err(e),
            }
        }
    }

    /// Overwrites the remembered original text and re-derives the current
    /// value from it.  A fresh cell is therefore never modified.
    pub fn set_from_api(&mut self, value: &str) -> (r: Result<(), RosError>)
        ensures
            final(self).orig() == value@,
            r is Ok <==> accepts_text::<T>(value@),
            match r {
                Ok(_) => final(self).cur() == final(self).orig_decoded()
                    && final(self).unmodified(),
                Err(_) => final(self).cur() == old(self).cur(),
            },
    {
        self.original_value = value.to_owned();
        self.reset()
    }

    /// Reports the current value's rendering when the field is modified,
    /// and nothing when it is not.
    pub fn modified_value(&self, format: &ValueFormat) -> (r: Option<String>)
        ensures
            match (r, self.modified_spec(*format)) {
                (Some(s), Some(t)) => s@ == t,
                (None, None) => true,
                _ => false,
            },
    {
        let same = if self.original_value.as_str().is_empty() {
            self.current_value.is_none()
        } else {
            match T::from_api(self.original_value.as_str()) {
                Ok(dec) => match &self.current_value {
                    Some(cur) => dec.eq_value(cur),
                    None => false,
                },
                Err(_) => self.current_value.is_none(),
            }
        };
        if same {
            None
        } else {
            Some(self.api_value(format))
        }
    }
}

impl<T: RosValue> Default for RosFieldValue<T> {
    /// A fresh cell: no text, no value — and therefore unmodified.
    fn default() -> (r: Self)
        ensures
            r.orig().len() == 0,
            r.cur() is None,
    {
        RosFieldValue { original_value: String::new(), current_value: None }
    }
}

/// Field modification detection, end to end: a freshly decoded cell reports
/// no modification; replacing the value with one that differs from the
/// decoded original makes the cell report exactly that value's rendering; a
/// cell whose value equals the decoded original again reports nothing.
pub proof fn lemma_modification_detection<T: RosValue>(
    fresh: RosFieldValue<T>,
    touched: RosFieldValue<T>,
    v: T::V,
    f: ValueFormat,
)
    requires
        fresh.unmodified(),
        touched.orig() == fresh.orig(),
        touched.cur() == Some(v),
        !opt_veq::<T>(touched.orig_decoded(), Some(v)),
    ensures
        fresh.modified_spec(f) is None,
        touched.modified_spec(f) == Some(T::encode_spec(v, f)),
{
}

} // verus!
