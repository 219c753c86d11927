//! The uniform shape of a resource type: an ordered set of named field
//! cells, reached by index, plus the protocol path the resource lives
//! under.  Typed access to a single field goes through a `FieldSelector`.

use vstd::prelude::*;

use crate::RosError;
use crate::ValueFormat;
use crate::field::RosFieldValue;
use crate::value::RosValue;

verus! {

/// Static metadata of one field: its wire name, whether the backend refuses
/// writes to it, and whether it identifies the resource instance.
#[derive(Debug, Clone, Copy)]
pub struct FieldDescription {
    pub name: &'static str,
    pub is_read_only: bool,
    pub is_id: bool,
}

/// Field access by index.  The `*_spec` functions are the mathematical
/// reading of the same projections the executable methods return.
pub trait RouterOsApiFieldAccess: Sized {
    spec fn field_count_spec() -> nat;

    spec fn field_name_spec(i: int) -> Seq<char>;

    spec fn field_is_id_spec(i: int) -> bool;

    spec fn field_read_only_spec(i: int) -> bool;

    spec fn field_orig_spec(&self, i: int) -> Seq<char>;

    spec fn field_has_value_spec(&self, i: int) -> bool;

    spec fn field_modified_spec(&self, i: int, f: ValueFormat) -> Option<Seq<char>>;

    spec fn field_value_spec(&self, i: int, f: ValueFormat) -> Seq<char>;

    /// Whether field `i` accepts this wire text: empty text stands for an
    /// absent field; anything else must decode under the field's type.
    spec fn field_accepts_spec(i: int, value: Seq<char>) -> bool;

    /// Whether the instance carries the backend's "dynamic" flag; dynamic
    /// instances are left out of every write-back.
    spec fn is_dynamic_spec(&self) -> bool;

    /// Field names are distinct, and at most one field is the id.
    proof fn field_layout_wf()
        ensures
            forall|i: int, j: int|
                0 <= i < j < Self::field_count_spec() ==> Self::field_name_spec(i)
                    != Self::field_name_spec(j),
            forall|i: int, j: int|
                0 <= i < j < Self::field_count_spec() ==> !(Self::field_is_id_spec(i)
                    && Self::field_is_id_spec(j)),
    ;

    fn field_count() -> (n: usize)
        ensures
            n == Self::field_count_spec(),
    ;

    fn field_description(i: usize) -> (d: FieldDescription)
        requires
            i < Self::field_count_spec(),
        ensures
            d.name@ == Self::field_name_spec(i as int),
            d.is_id == Self::field_is_id_spec(i as int),
            d.is_read_only == Self::field_read_only_spec(i as int),
    ;

    fn field_has_value(&self, i: usize) -> (r: bool)
        requires
            i < Self::field_count_spec(),
        ensures
            r == self.field_has_value_spec(i as int),
    ;

    fn field_modified_value(&self, i: usize, format: &ValueFormat) -> (r: Option<String>)
        requires
            i < Self::field_count_spec(),
        ensures
            match (r, self.field_modified_spec(i as int, *format)) {
                (Some(s), Some(t)) => s@ == t,
                (None, None) => true,
                _ => false,
            },
    ;

    fn field_api_value(&self, i: usize, format: &ValueFormat) -> (r: String)
        requires
            i < Self::field_count_spec(),
        ensures
            r@ == self.field_value_spec(i as int, *format),
    ;

    /// Writes wire text into field `i`, overwriting its remembered original;
    /// on success the field is freshly decoded and therefore unmodified.
    /// All other fields keep their state either way.
    fn field_set_from_api(&mut self, i: usize, value: &str) -> (r: Result<(), RosError>)
        requires
            i < Self::field_count_spec(),
        ensures
            final(self).field_orig_spec(i as int) == value@,
            (r is Ok) == Self::field_accepts_spec(i as int, value@),
            forall|j: int|
                0 <= j < Self::field_count_spec() && j != i ==> final(self).field_orig_spec(j)
                    == old(self).field_orig_spec(j) && final(self).field_has_value_spec(j)
                    == old(self).field_has_value_spec(j),
            forall|j: int, f: ValueFormat|
                0 <= j < Self::field_count_spec() && j != i ==> final(self).field_modified_spec(
                    j,
                    f,
                ) == old(self).field_modified_spec(j, f) && final(self).field_value_spec(j, f)
                    == old(self).field_value_spec(j, f),
            r is Ok ==> forall|f: ValueFormat|
                final(self).field_modified_spec(i as int, f) is None,
    ;

    fn is_dynamic(&self) -> (r: bool)
        ensures
            r == self.is_dynamic_spec(),
    ;
}

/// All cells empty: no remembered text, no value.
pub open spec fn resource_empty<R: RouterOsApiFieldAccess>(r: R) -> bool {
    forall|i: int|
        0 <= i < R::field_count_spec() ==> (#[trigger] r.field_orig_spec(i)).len() == 0
            && !r.field_has_value_spec(i)
}

/// A resource category: its protocol command path, and a fresh, empty
/// instance.
pub trait RouterOsResource: RouterOsApiFieldAccess {
    spec fn resource_path_spec() -> Seq<char>;

    fn resource_path() -> (r: &'static str)
        ensures
            r@ == Self::resource_path_spec(),
    ;

    fn new_default() -> (r: Self)
        ensures
            resource_empty(r),
            !r.is_dynamic_spec(),
            forall|i: int, f: ValueFormat|
                0 <= i < Self::field_count_spec() ==> r.field_modified_spec(i, f) is None,
    ;
}

/// A resource category with many identified instances.
pub trait RouterOsListResource: RouterOsResource {

}

/// A resource category with exactly one implicit instance.
pub trait RouterOsSingleResource: RouterOsResource {

}

/// Is any field modified (judged in the binary protocol format)?
pub open spec fn is_modified_spec<R: RouterOsApiFieldAccess>(r: R) -> bool {
    exists|i: int|
        0 <= i < R::field_count_spec() && (#[trigger] r.field_modified_spec(
            i,
            ValueFormat::Api,
        )) is Some
}

pub fn is_modified<R: RouterOsApiFieldAccess>(r: &R) -> (b: bool)
    ensures
        b == is_modified_spec(*r),
{
    let n = R::field_count();
    let mut i: usize = 0;
    while i < n
        invariant
            n == R::field_count_spec(),
            0 <= i <= n,
            forall|j: int| 0 <= j < i ==> (#[trigger] r.field_modified_spec(
                j,
                ValueFormat::Api,
            )) is None,
        decreases n - i,
    {
        if r.field_modified_value(i, &ValueFormat::Api).is_some() {
            return true;
        }
        i = i + 1;
    }
    false
}

/// The index of the id field, when the resource has one with a value.
pub open spec fn id_field_spec<R: RouterOsApiFieldAccess>(r: R) -> Option<int> {
    if exists|i: int|
        0 <= i < R::field_count_spec() && #[trigger] R::field_is_id_spec(i)
            && r.field_has_value_spec(i) {
        Some(
            choose|i: int|
                0 <= i < R::field_count_spec() && #[trigger] R::field_is_id_spec(i)
                    && r.field_has_value_spec(i),
        )
    } else {
        None
    }
}

pub fn id_field<R: RouterOsApiFieldAccess>(r: &R) -> (o: Option<usize>)
    ensures
        match o {
            Some(i) => i < R::field_count_spec() && R::field_is_id_spec(i as int)
                && r.field_has_value_spec(i as int) && id_field_spec(*r) is Some,
            None => id_field_spec(*r) is None,
        },
{
    let n = R::field_count();
    let mut i: usize = 0;
    while i < n
        invariant
            n == R::field_count_spec(),
            0 <= i <= n,
            forall|j: int| 0 <= j < i ==> !(#[trigger] R::field_is_id_spec(j)
                && r.field_has_value_spec(j)),
        decreases n - i,
    {
        let d = R::field_description(i);
        if d.is_id && r.field_has_value(i) {
            return Some(i);
        }
        i = i + 1;
    }
    None
}

/// Typed access to one field of a resource: a lens onto its cell.
pub trait FieldSelector<R>: Sized {
    type Value: RosValue;

    spec fn cell_spec(r: R) -> RosFieldValue<Self::Value>;

    spec fn update_spec(r: R, c: RosFieldValue<Self::Value>) -> R;

    proof fn lens_laws(r: R, c: RosFieldValue<Self::Value>)
        ensures
            Self::update_spec(r, Self::cell_spec(r)) == r,
            Self::cell_spec(Self::update_spec(r, c)) == c,
    ;

    fn get<'a>(&self, r: &'a R) -> (c: &'a RosFieldValue<Self::Value>)
        ensures
            *c == Self::cell_spec(*r),
    ;

    fn get_mut<'a>(&self, r: &'a mut R) -> (c: &'a mut RosFieldValue<Self::Value>)
        ensures
            *c == Self::cell_spec(*old(r)),
            *final(r) == Self::update_spec(*old(r), *final(c)),
    ;
}

/// The resource with the selected field's value replaced, the remembered
/// original text kept.
pub open spec fn with_field_set<R, S: FieldSelector<R>>(e: R, value: S::Value) -> R {
    S::update_spec(e, S::cell_spec(e).with_set(value))
}

/// A predicate over resource instances, with its mathematical meaning.
pub trait ResourcePredicate<R>: Sized {
    spec fn holds(&self, r: R) -> bool;

    fn test(&self, r: &R) -> (b: bool)
        ensures
            b == self.holds(*r),
    ;
}

/// Holds when the selected field has a value equal to the given one.
pub struct FieldEquals<S, V> {
    pub selector: S,
    pub value: V,
}

impl<R, V: RosValue, S: FieldSelector<R, Value = V>> ResourcePredicate<R> for FieldEquals<
    S,
    V,
> {
    open spec fn holds(&self, r: R) -> bool {
        match S::cell_spec(r).cur() {
            Some(v) => V::veq(v, self.value@),
            None => false,
        }
    }

    fn test(&self, r: &R) -> (b: bool) {
        match self.selector.get(r).get() {
            Some(v) => v.eq_value(&self.value),
            None => false,
        }
    }
}

/// Holds when both selected fields have values equal to the given ones.
pub struct FieldsEqual2<S1, V1, S2, V2> {
    pub first: FieldEquals<S1, V1>,
    pub second: FieldEquals<S2, V2>,
}

impl<
    R,
    V1: RosValue,
    S1: FieldSelector<R, Value = V1>,
    V2: RosValue,
    S2: FieldSelector<R, Value = V2>,
> ResourcePredicate<R> for FieldsEqual2<S1, V1, S2, V2> {
    open spec fn holds(&self, r: R) -> bool {
        self.first.holds(r) && self.second.holds(r)
    }

    fn test(&self, r: &R) -> (b: bool) {
        self.first.test(r) && self.second.test(r)
    }
}

/// An in-place change to a resource instance, with its mathematical meaning.
pub trait ResourceMutator<R>: Sized {
    spec fn apply_spec(&self, r: R) -> R;

    fn apply(&self, r: &mut R)
        ensures
            *final(r) == self.apply_spec(*old(r)),
    ;
}

/// Empties the selected field's value.
pub struct ClearField<S> {
    pub selector: S,
}

impl<R, S: FieldSelector<R>> ResourceMutator<R> for ClearField<S> {
    open spec fn apply_spec(&self, r: R) -> R {
        S::update_spec(r, S::cell_spec(r).cleared())
    }

    fn apply(&self, r: &mut R) {
        let cell = self.selector.get_mut(r);
        cell.clear();
    }
}

} // verus!
