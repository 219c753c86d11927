//! The in-memory staging of one resource category, and the backend
//! contract it commits through.  Fetched rows can be mutated in place; new
//! rows and rows marked for removal wait in their own buckets; a commit
//! sends deletes, then updates, then adds, and re-fetches.

use vstd::prelude::*;

use crate::RosError;
use crate::resource::FieldEquals;
use crate::resource::FieldSelector;
use crate::resource::FieldsEqual2;
use crate::resource::ResourceMutator;
use crate::resource::with_field_set;
use crate::resource::ResourcePredicate;
use crate::resource::RouterOsListResource;
use crate::resource::RouterOsResource;
use crate::resource::RouterOsSingleResource;
use crate::resource::is_modified_spec;
use crate::resource::resource_empty;

verus! {


/// The entries of `s` the predicate does not hold of, in order.
pub open spec fn entries_not_matching<R, P: ResourcePredicate<R>>(s: Seq<R>, p: P) -> Seq<R> {
    s.filter(|r: R| !p.holds(r))
}

/// The entries of `s` the predicate holds of, in order.
pub open spec fn entries_matching<R, P: ResourcePredicate<R>>(s: Seq<R>, p: P) -> Seq<R> {
    s.filter(|r: R| p.holds(r))
}

/// Every entry of `s` with the change applied.
pub open spec fn all_mutated<R, M: ResourceMutator<R>>(s: Seq<R>, m: M) -> Seq<R> {
    s.map_values(|r: R| m.apply_spec(r))
}

/// The first entry of `s` the predicate holds of.
pub open spec fn spec_find_entry<R, P: ResourcePredicate<R>>(s: Seq<R>, p: P) -> Option<int>
    decreases s.len(),
{
    if s.len() == 0 {
        None
    } else if p.holds(s[0]) {
        Some(0)
    } else {
        match spec_find_entry(s.skip(1), p) {
            Some(i) => Some(i + 1),
            None => None,
        }
    }
}

/// What the spec search returns is a first match.
pub proof fn lemma_find_entry_props<R, P: ResourcePredicate<R>>(s: Seq<R>, p: P)
    ensures
        match spec_find_entry(s, p) {
            Some(i) => 0 <= i < s.len() && p.holds(s[i]) && (forall|j: int|
                0 <= j < i ==> !p.holds(s[j])),
            None => forall|j: int| 0 <= j < s.len() ==> !p.holds(s[j]),
        },
    decreases s.len(),
{
    if s.len() > 0 && !p.holds(s[0]) {
        let t = s.skip(1);
        lemma_find_entry_props(t, p);
        assert(forall|j: int| 0 <= j < t.len() ==> #[trigger] t[j] == s[j + 1]);
        match spec_find_entry(t, p) {
            Some(i) => {
                assert(p.holds(s[i + 1]));
                assert forall|j: int| 0 <= j < i + 1 implies !p.holds(s[j]) by {
                    if j > 0 {
                        assert(t[j - 1] == s[j]);
                    }
                }
            },
            None => {
                assert forall|j: int| 0 <= j < s.len() implies !p.holds(s[j]) by {
                    if j > 0 {
                        assert(t[j - 1] == s[j]);
                    }
                }
            },
        }
    }
}

/// If some entry matches, the search finds one.
pub proof fn lemma_find_entry_complete<R, P: ResourcePredicate<R>>(s: Seq<R>, p: P, i: int)
    requires
        0 <= i < s.len(),
        p.holds(s[i]),
    ensures
        spec_find_entry(s, p) is Some,
{
    lemma_find_entry_props(s, p);
    if spec_find_entry(s, p) is None {
        assert(!p.holds(s[i]));
    }
}

/// Finds the first entry of `v` the predicate holds of.
fn find_in<R, P: ResourcePredicate<R>>(v: &Vec<R>, filter: &P) -> (r: Option<usize>)
    ensures
        match r {
            Some(i) => spec_find_entry(v@, *filter) == Some(i as int) && i < v@.len()
                && filter.holds(v@[i as int]),
            None => spec_find_entry(v@, *filter) is None,
        },
{
    let n = v.len();
    let mut i: usize = 0;
    while i < n
        invariant
            n == v@.len(),
            0 <= i <= n,
            forall|j: int| 0 <= j < i ==> !filter.holds(v@[j]),
        decreases n - i,
    {
        if filter.test(&v[i]) {
            proof {
                lemma_find_entry_props(v@, *filter);
                match spec_find_entry(v@, *filter) {
                    Some(k) => {
                        assert(k == i);
                    },
                    None => {
                        assert(!filter.holds(v@[i as int]));
                    },
                }
            }
            return Some(i);
        }
        i = i + 1;
    }
    proof {
        lemma_find_entry_props(v@, *filter);
        if spec_find_entry(v@, *filter) is Some {
            let k = spec_find_entry(v@, *filter).unwrap();
            assert(!filter.holds(v@[k]));
        }
    }
    None
}

/// Moves every entry the predicate holds of out of `src`, keeping the rest
/// in order; the moved entries come back in order.
fn drain_matching<R, P: ResourcePredicate<R>>(src: &mut Vec<R>, filter: &P) -> (matched: Vec<
    R,
>)
    ensures
        final(src)@ == entries_not_matching(old(src)@, *filter),
        matched@ == entries_matching(old(src)@, *filter),
{
    let ghost orig = src@;
    let mut kept: Vec<R> = Vec::new();
    let mut matched: Vec<R> = Vec::new();
    let ghost mut k: int = 0;
    while src.len() > 0
        invariant
            0 <= k <= orig.len(),
            src@ == orig.skip(k),
            kept@ == entries_not_matching(orig.take(k), *filter),
            matched@ == entries_matching(orig.take(k), *filter),
        decreases src@.len(),
    {
        let x = src.remove(0);
        proof {
            assert(x == orig[k]);
            assert(orig.take(k + 1).drop_last() =~= orig.take(k));
            assert(orig.take(k + 1).last() == orig[k]);
            assert(orig.skip(k).skip(1) =~= orig.skip(k + 1));
        }
        if filter.test(&x) {
            matched.push(x);
        } else {
            kept.push(x);
        }
        proof {
            reveal_with_fuel(Seq::filter, 2);
            k = k + 1;
            assert(kept@ == entries_not_matching(orig.take(k), *filter));
            assert(matched@ == entries_matching(orig.take(k), *filter));
        }
    }
    proof {
        assert(orig.take(k) =~= orig);
    }
    *src = kept;
    matched
}

/// Applies the change to every row, in place and in order.
fn mutate_each<T, M: ResourceMutator<T>>(rows: &mut Vec<T>, mutator: &M)
    ensures
        final(rows)@ == all_mutated(old(rows)@, *mutator),
{
    let ghost orig = rows@;
    let n = rows.len();
    let mut i: usize = 0;
    while i < n
        invariant
            n == orig.len(),
            rows@.len() == n,
            0 <= i <= n,
            forall|j: int| 0 <= j < i ==> rows@[j] == mutator.apply_spec(#[trigger] orig[j]),
            forall|j: int| i <= j < n ==> #[trigger] rows@[j] == orig[j],
        decreases n - i,
    {
        let mut x = rows.remove(i);
        mutator.apply(&mut x);
        rows.insert(i, x);
        i = i + 1;
    }
    proof {
        assert(rows@ =~= all_mutated(orig, *mutator));
    }
}

/// A mutable view into one visible entry of a vector.
pub(crate) fn vec_entry_mut<T>(v: &mut Vec<T>, i: usize) -> (element: &mut T)
    requires
        i < old(v)@.len(),
    ensures
        *element == old(v)@[i as int],
        final(v)@ == old(v)@.update(i as int, *final(element)),
{
    &mut v[i]
}

/// The staged state of one list resource category: rows fetched from the
/// backend, rows to create, rows to delete, and rows set aside that will be
/// deleted unless they are claimed again before the commit.
#[derive(Debug)]
pub struct ResourceListAccess<R: RouterOsListResource> {
    fetched_data: Vec<R>,
    new_data: Vec<R>,
    remove_data: Vec<R>,
    remove_if_not_touched: Vec<R>,
}

impl<R: RouterOsListResource> ResourceListAccess<R> {
    /// Rows that came from the backend and may be edited in place.
    pub closed spec fn fetched(&self) -> Seq<R> {
        self.fetched_data@
    }

    /// Rows not yet known to the backend.
    pub closed spec fn created(&self) -> Seq<R> {
        self.new_data@
    }

    /// Rows marked for deletion.
    pub closed spec fn removed(&self) -> Seq<R> {
        self.remove_data@
    }

    /// Rows set aside: deleted on commit unless claimed again first.
    pub closed spec fn set_aside(&self) -> Seq<R> {
        self.remove_if_not_touched@
    }

    /// The rows a caller sees: the fetched ones, then the new ones.
    pub open spec fn visible(&self) -> Seq<R> {
        self.fetched() + self.created()
    }

    /// Wraps rows freshly fetched from a backend.
    pub fn from_fetched(fetched_data: Vec<R>) -> (r: Self)
        ensures
            r.fetched() == fetched_data@,
            r.created().len() == 0,
            r.removed().len() == 0,
            r.set_aside().len() == 0,
    {
        ResourceListAccess {
            fetched_data,
            new_data: Vec::new(),
            remove_data: Vec::new(),
            remove_if_not_touched: Vec::new(),
        }
    }

    /// Marks matching rows for deletion: new rows are dropped outright
    /// (they were never persisted); fetched and set-aside rows move to the
    /// removal bucket.
    pub fn remove<P: ResourcePredicate<R>>(&mut self, filter: &P)
        ensures
            final(self).created() == entries_not_matching(old(self).created(), *filter),
            final(self).fetched() == entries_not_matching(old(self).fetched(), *filter),
            final(self).set_aside() == entries_not_matching(old(self).set_aside(), *filter),
            final(self).removed() == old(self).removed() + entries_matching(
                old(self).fetched(),
                *filter,
            ) + entries_matching(old(self).set_aside(), *filter),
    {
        let dropped = drain_matching(&mut self.new_data, filter);
        let mut from_fetched = drain_matching(&mut self.fetched_data, filter);
        self.remove_data.append(&mut from_fetched);
        let mut from_aside = drain_matching(&mut self.remove_if_not_touched, filter);
        self.remove_data.append(&mut from_aside);
    }

    /// The visible indices of every row the predicate holds of, in order of
    /// appearance; use `entry_mut` to reach and change them.
    pub fn find_mut<P: ResourcePredicate<R>>(&self, filter: &P) -> (r: Vec<usize>)
        requires
            self.visible().len() <= usize::MAX,
        ensures
            forall|k: int|
                0 <= k < r@.len() ==> (#[trigger] r@[k]) < self.visible().len()
                    && filter.holds(self.visible()[r@[k] as int]),
            forall|i: int|
                0 <= i < self.visible().len() && filter.holds(#[trigger] self.visible()[i])
                    ==> r@.contains(i as usize),
            forall|a: int, b: int| 0 <= a < b < r@.len() ==> r@[a] < r@[b],
    {
        let mut out: Vec<usize> = Vec::new();
        let flen = self.fetched_data.len();
        let nlen = self.new_data.len();
        let mut i: usize = 0;
        while i < flen
            invariant
                flen == self.fetched().len(),
                nlen == self.created().len(),
                self.visible().len() <= usize::MAX,
                0 <= i <= flen,
                forall|k: int|
                    0 <= k < out@.len() ==> (#[trigger] out@[k]) < i && filter.holds(
                        self.visible()[out@[k] as int],
                    ),
                forall|a: int, b: int| 0 <= a < b < out@.len() ==> out@[a] < out@[b],
                forall|j: int|
                    0 <= j < i && filter.holds(#[trigger] self.visible()[j]) ==> out@.contains(
                        j as usize,
                    ),
            decreases flen - i,
        {
            proof {
                assert(self.visible()[i as int] == self.fetched()[i as int]);
            }
            let ghost pre_out = out@;
            if filter.test(&self.fetched_data[i]) {
                out.push(i);
            }
            proof {
                assert forall|y: usize| pre_out.contains(y) implies out@.contains(y) by {
                    let idx = choose|idx: int| 0 <= idx < pre_out.len() && pre_out[idx] == y;
                    assert(out@[idx] == y);
                }
                if filter.holds(self.visible()[i as int]) {
                    assert(out@[out@.len() - 1] == i);
                    assert(out@.contains(i));
                }
            }
            i = i + 1;
        }
        let mut j: usize = 0;
        while j < nlen
            invariant
                flen == self.fetched().len(),
                nlen == self.created().len(),
                self.visible().len() <= usize::MAX,
                0 <= j <= nlen,
                forall|k: int|
                    0 <= k < out@.len() ==> (#[trigger] out@[k]) < flen + j && filter.holds(
                        self.visible()[out@[k] as int],
                    ),
                forall|a: int, b: int| 0 <= a < b < out@.len() ==> out@[a] < out@[b],
                forall|i2: int|
                    0 <= i2 < flen + j && filter.holds(#[trigger] self.visible()[i2])
                        ==> out@.contains(i2 as usize),
            decreases nlen - j,
        {
            proof {
                assert(self.visible()[flen + j] == self.created()[j as int]);
            }
            let ghost pre_out = out@;
            if filter.test(&self.new_data[j]) {
                out.push(flen + j);
            }
            proof {
                assert forall|y: usize| pre_out.contains(y) implies out@.contains(y) by {
                    let idx = choose|idx: int| 0 <= idx < pre_out.len() && pre_out[idx] == y;
                    assert(out@[idx] == y);
                }
                if filter.holds(self.visible()[flen + j]) {
                    assert(out@[out@.len() - 1] == (flen + j) as usize);
                    assert(out@.contains((flen + j) as usize));
                }
            }
            j = j + 1;
        }
        out
    }

    pub fn visible_len(&self) -> (n: usize)
        requires
            self.visible().len() <= usize::MAX,
        ensures
            n == self.visible().len(),
    {
        self.fetched_data.len() + self.new_data.len()
    }

    /// A shared view of every visible row, fetched rows first.
    pub fn iter(&self) -> (r: Vec<&R>)
        ensures
            r@.len() == self.visible().len(),
            forall|i: int| 0 <= i < r@.len() ==> *(#[trigger] r@[i]) == self.visible()[i],
    {
        let mut out: Vec<&R> = Vec::new();
        let flen = self.fetched_data.len();
        let mut i: usize = 0;
        while i < flen
            invariant
                flen == self.fetched().len(),
                0 <= i <= flen,
                out@.len() == i,
                forall|k: int| 0 <= k < i ==> *(#[trigger] out@[k]) == self.visible()[k],
            decreases flen - i,
        {
            out.push(&self.fetched_data[i]);
            i = i + 1;
        }
        let nlen = self.new_data.len();
        let mut j: usize = 0;
        while j < nlen
            invariant
                flen == self.fetched().len(),
                nlen == self.created().len(),
                0 <= j <= nlen,
                out@.len() == flen + j,
                forall|k: int| 0 <= k < flen + j ==> *(#[trigger] out@[k]) == self.visible()[k],
            decreases nlen - j,
        {
            out.push(&self.new_data[j]);
            j = j + 1;
        }
        out
    }

    /// The indices of every visible row, in order; reach and change each
    /// row through `entry_mut`.
    pub fn iter_mut(&mut self) -> (r: Vec<usize>)
        requires
            old(self).visible().len() <= usize::MAX,
        ensures
            *final(self) == *old(self),
            r@.len() == old(self).visible().len(),
            forall|k: int| 0 <= k < r@.len() ==> #[trigger] r@[k] == k,
    {
        let n = self.visible_len();
        let mut out: Vec<usize> = Vec::new();
        let mut i: usize = 0;
        while i < n
            invariant
                0 <= i <= n,
                out@.len() == i,
                forall|k: int| 0 <= k < i ==> #[trigger] out@[k] == k,
            decreases n - i,
        {
            out.push(i);
            i = i + 1;
        }
        out
    }

    /// A mutable view of the visible row at `i`.
    pub fn entry_mut(&mut self, i: usize) -> (r: &mut R)
        requires
            i < old(self).visible().len(),
        ensures
            *r == old(self).visible()[i as int],
            final(self).visible() == old(self).visible().update(i as int, *final(r)),
            final(self).removed() == old(self).removed(),
            final(self).set_aside() == old(self).set_aside(),
            final(self).fetched().len() == old(self).fetched().len(),
            final(self).created().len() == old(self).created().len(),
    {
        let flen = self.fetched_data.len();
        if i < flen {
            let r = vec_entry_mut(&mut self.fetched_data, i);
            proof {
                assert(old(self).visible()[i as int] == old(self).fetched()[i as int]);
            }
            r
        } else {
            let r = vec_entry_mut(&mut self.new_data, i - flen);
            proof {
                assert(old(self).visible()[i as int] == old(self).created()[i - flen]);
            }
            r
        }
    }

    /// Sets every fetched row aside; anything not claimed again before the
    /// commit is deleted by it.
    pub fn put_all_aside(&mut self)
        ensures
            final(self).fetched().len() == 0,
            final(self).set_aside() == old(self).set_aside() + old(self).fetched(),
            final(self).created() == old(self).created(),
            final(self).removed() == old(self).removed(),
    {
        self.remove_if_not_touched.append(&mut self.fetched_data);
    }

    /// Sets every fetched row aside, applying the change to each row this
    /// call displaces; rows set aside earlier are left alone.
    pub fn put_all_aside_and_mutate<M: ResourceMutator<R>>(&mut self, mutator: &M)
        ensures
            final(self).fetched().len() == 0,
            final(self).set_aside() == old(self).set_aside() + all_mutated(
                old(self).fetched(),
                *mutator,
            ),
            final(self).created() == old(self).created(),
            final(self).removed() == old(self).removed(),
    {
        let mut displaced: Vec<R> = Vec::new();
        core::mem::swap(&mut displaced, &mut self.fetched_data);
        mutate_each(&mut displaced, mutator);
        self.remove_if_not_touched.append(&mut displaced);
    }

    /// Sets the matching fetched rows aside.
    pub fn put_aside<P: ResourcePredicate<R>>(&mut self, filter: &P)
        ensures
            final(self).fetched() == entries_not_matching(old(self).fetched(), *filter),
            final(self).set_aside() == old(self).set_aside() + entries_matching(
                old(self).fetched(),
                *filter,
            ),
            final(self).created() == old(self).created(),
            final(self).removed() == old(self).removed(),
    {
        let mut matched = drain_matching(&mut self.fetched_data, filter);
        self.remove_if_not_touched.append(&mut matched);
    }

    /// Sets the matching fetched rows aside, applying the change to each
    /// row this call displaces; rows set aside earlier are left alone, even
    /// where the predicate holds of them.
    pub fn put_aside_and_mutate<P: ResourcePredicate<R>, M: ResourceMutator<R>>(
        &mut self,
        filter: &P,
        mutator: &M,
    )
        ensures
            final(self).fetched() == entries_not_matching(old(self).fetched(), *filter),
            final(self).set_aside() == old(self).set_aside() + all_mutated(
                entries_matching(old(self).fetched(), *filter),
                *mutator,
            ),
            final(self).created() == old(self).created(),
            final(self).removed() == old(self).removed(),
    {
        let mut displaced = drain_matching(&mut self.fetched_data, filter);
        mutate_each(&mut displaced, mutator);
        self.remove_if_not_touched.append(&mut displaced);
    }

    /// Returns the first matching visible row, or a restored set-aside
    /// match, or a freshly created empty row: the search order is fetched,
    /// then new, then set-aside (a match there returns to the fetched
    /// rows); only when nothing matches anywhere is a new row created.
    pub fn get_or_default<P: ResourcePredicate<R>>(&mut self, filter: &P) -> (r: &mut R)
        ensures
            final(self).removed() == old(self).removed(),
            match spec_find_entry(old(self).fetched(), *filter) {
                Some(i) => *r == old(self).fetched()[i] && final(self).fetched() == old(self).fetched().update(i, *final(r)) && final(self).created() == old(self).created() && final(self).set_aside() == old(self).set_aside(),
                None => match spec_find_entry(old(self).created(), *filter) {
                    Some(i) => *r == old(self).created()[i] && final(self).created() == old(self).created().update(i, *final(r)) && final(self).fetched() == old(self).fetched() && final(self).set_aside() == old(self).set_aside(),
                    None => match spec_find_entry(old(self).set_aside(), *filter) {
                        Some(i) => *r == old(self).set_aside()[i] && final(self).fetched()
                            == old(self).fetched().push(*final(r)) && final(self).set_aside()
                            == old(self).set_aside().remove(i) && final(self).created() == old(self).created(),
                        None => resource_empty(*r) && final(self).created() == old(self).created().push(*final(r)) && final(self).fetched() == old(self).fetched() && final(self).set_aside() == old(self).set_aside(),
                    },
                },
            },
    {
        if let Some(i) = find_in(&self.fetched_data, filter) {
            return vec_entry_mut(&mut self.fetched_data, i);
        }
        if let Some(i) = find_in(&self.new_data, filter) {
            return vec_entry_mut(&mut self.new_data, i);
        }
        if let Some(i) = find_in(&self.remove_if_not_touched, filter) {
            let x = self.remove_if_not_touched.remove(i);
            self.fetched_data.push(x);
            let idx = self.fetched_data.len() - 1;
            let ghost pre = old(self).fetched();
            let r = vec_entry_mut(&mut self.fetched_data, idx);
            proof {
                assert(pre.push(old(self).set_aside()[i as int]).update(
                    idx as int,
                    *final(r),
                ) =~= pre.push(*final(r)));
            }
            return r;
        }
        self.new_data.push(R::new_default());
        let idx = self.new_data.len() - 1;
        let ghost pre = old(self).created();
        let ghost fresh = self.new_data@[idx as int];
        let r = vec_entry_mut(&mut self.new_data, idx);
        proof {
            assert(pre.push(fresh).update(idx as int, *final(r)) =~= pre.push(*final(r)));
        }
        r
    }

    /// Returns the row whose selected field holds the value, restoring or
    /// creating it as `get_or_default` does, and sets that field to the
    /// value on the way out (a no-op when it already held it).
    pub fn get_or_create_by_value<S: FieldSelector<R> + Copy>(
        &mut self,
        field: &S,
        value: S::Value,
    ) -> (r: &mut R)
        ensures
            final(self).removed() == old(self).removed(),
            S::cell_spec(*r).cur() == Some(value@),
            ({
                let p = FieldEquals { selector: *field, value };
                match spec_find_entry(old(self).fetched(), p) {
                    Some(i) => *r == with_field_set::<R, S>(old(self).fetched()[i], value)
                        && final(self).fetched() == old(self).fetched().update(
                        i,
                        *final(r),
                    ) && final(self).created() == old(self).created() && final(self).set_aside() == old(self).set_aside(),
                    None => match spec_find_entry(old(self).created(), p) {
                        Some(i) => *r == with_field_set::<R, S>(old(self).created()[i], value)
                            && final(self).created() == old(self).created().update(
                            i,
                            *final(r),
                        ) && final(self).fetched() == old(self).fetched() && final(self).set_aside() == old(self).set_aside(),
                        None => match spec_find_entry(old(self).set_aside(), p) {
                            Some(i) => *r == with_field_set::<R, S>(
                                old(self).set_aside()[i],
                                value,
                            ) && final(self).fetched() == old(self).fetched().push(
                                *final(r),
                            ) && final(self).set_aside() == old(self).set_aside().remove(i)
                                && final(self).created() == old(self).created(),
                            None => (exists|e0: R|
                                #![trigger with_field_set::<R, S>(e0, value)]
                                resource_empty(e0) && *r == with_field_set::<R, S>(e0, value))
                                && final(self).created() == old(self).created().push(
                                *final(r),
                            ) && final(self).fetched() == old(self).fetched() && final(self).set_aside() == old(self).set_aside(),
                        },
                    },
                }
            }),
    {
        let p = FieldEquals { selector: *field, value };
        let ghost gp = p;
        let entry = self.get_or_default(&p);
        let ghost e0 = *entry;
        let cell = field.get_mut(entry);
        cell.set(p.value);
        proof {
            assert(*entry == with_field_set::<R, S>(e0, value));
            S::lens_laws(e0, S::cell_spec(e0).with_set(p.value));
            S::cell_spec(e0).lemma_with_set_props(p.value);
            match spec_find_entry(old(self).fetched(), gp) {
                Some(_) => {},
                None => match spec_find_entry(old(self).created(), gp) {
                    Some(_) => {},
                    None => match spec_find_entry(old(self).set_aside(), gp) {
                        Some(_) => {},
                        None => {},
                    },
                },
            }
        }
        entry
    }

    /// As `get_or_create_by_value`, but the row must carry both values, and
    /// both fields are set on the way out.
    pub fn get_or_create_by_value2<
        S1: FieldSelector<R> + Copy,
        S2: FieldSelector<R> + Copy,
    >(
        &mut self,
        field1: &S1,
        value1: S1::Value,
        field2: &S2,
        value2: S2::Value,
    ) -> (r: &mut R)
        ensures
            final(self).removed() == old(self).removed(),
            S2::cell_spec(*r).cur() == Some(value2@),
            ({
                let p = FieldsEqual2 {
                    first: FieldEquals { selector: *field1, value: value1 },
                    second: FieldEquals { selector: *field2, value: value2 },
                };
                match spec_find_entry(old(self).fetched(), p) {
                    Some(i) => *r == with_field_set::<R, S2>(
                        with_field_set::<R, S1>(old(self).fetched()[i], value1),
                        value2,
                    ) && final(self).fetched() == old(self).fetched().update(
                        i,
                        *final(r),
                    ) && final(self).created() == old(self).created() && final(self).set_aside()
                        == old(self).set_aside(),
                    None => match spec_find_entry(old(self).created(), p) {
                        Some(i) => *r == with_field_set::<R, S2>(
                            with_field_set::<R, S1>(old(self).created()[i], value1),
                            value2,
                        ) && final(self).created() == old(self).created().update(
                            i,
                            *final(r),
                        ) && final(self).fetched() == old(self).fetched() && final(self).set_aside() == old(self).set_aside(),
                        None => match spec_find_entry(old(self).set_aside(), p) {
                            Some(i) => *r == with_field_set::<R, S2>(
                                with_field_set::<R, S1>(old(self).set_aside()[i], value1),
                                value2,
                            ) && final(self).fetched() == old(self).fetched().push(
                                *final(r),
                            ) && final(self).set_aside() == old(self).set_aside().remove(i)
                                && final(self).created() == old(self).created(),
                            None => (exists|e0: R|
                                #![trigger with_field_set::<R, S1>(e0, value1)]
                                resource_empty(e0) && *r == with_field_set::<R, S2>(
                                    with_field_set::<R, S1>(e0, value1),
                                    value2,
                                )) && final(self).created() == old(self).created().push(
                                *final(r),
                            ) && final(self).fetched() == old(self).fetched() && final(self).set_aside() == old(self).set_aside(),
                        },
                    },
                }
            }),
    {
        let p = FieldsEqual2 {
            first: FieldEquals { selector: *field1, value: value1 },
            second: FieldEquals { selector: *field2, value: value2 },
        };
        let ghost gp = p;
        let entry = self.get_or_default(&p);
        let ghost e0 = *entry;
        let cell1 = field1.get_mut(entry);
        cell1.set(p.first.value);
        let ghost before2 = *entry;
        let cell2 = field2.get_mut(entry);
        cell2.set(p.second.value);
        proof {
            assert(before2 == with_field_set::<R, S1>(e0, value1));
            assert(*entry == with_field_set::<R, S2>(before2, value2));
            S2::lens_laws(before2, S2::cell_spec(before2).with_set(p.second.value));
            S2::cell_spec(before2).lemma_with_set_props(p.second.value);
            match spec_find_entry(old(self).fetched(), gp) {
                Some(_) => {},
                None => match spec_find_entry(old(self).created(), gp) {
                    Some(_) => {},
                    None => match spec_find_entry(old(self).set_aside(), gp) {
                        Some(_) => {},
                        None => {},
                    },
                },
            }
        }
        entry
    }
}


/// Looking up by value never duplicates: once any visible row carries the
/// value (as every row returned by `get_or_create_by_value` does), a second
/// call's search finds a row, so its contract keeps every bucket at its
/// length instead of creating a new row.
pub proof fn lemma_get_or_create_idempotent<
    R: RouterOsListResource,
    S: FieldSelector<R> + Copy,
>(fetched: Seq<R>, created: Seq<R>, p: FieldEquals<S, S::Value>, i: int)
    requires
        0 <= i < fetched.len() + created.len(),
        p.holds(
            if i < fetched.len() {
                fetched[i]
            } else {
                created[i - fetched.len()]
            },
        ),
    ensures
        spec_find_entry(fetched, p) is Some || spec_find_entry(created, p) is Some,
{
    if i < fetched.len() {
        lemma_find_entry_complete(fetched, p, i);
    } else {
        lemma_find_entry_complete(created, p, i - fetched.len());
    }
}

/// The backend contract: list, update, set, add and delete, each with a
/// per-implementation meaning given by the `*_post` relations over the
/// backend's own state.  Nothing is promised of a failed call.
pub trait Client<R: RouterOsResource>: Sized {
    spec fn list_post(pre: Self, post: Self, items: Seq<R>) -> bool;

    spec fn update_post(pre: Self, post: Self, item: R) -> bool;

    spec fn set_post(pre: Self, post: Self, item: R) -> bool;

    spec fn add_post(pre: Self, post: Self, item: R) -> bool;

    spec fn delete_post(pre: Self, post: Self, item: R) -> bool;

    fn list(&mut self) -> (r: Result<Vec<R>, RosError>)
        ensures
            r matches Ok(items) ==> Self::list_post(*old(self), *final(self), items@),
    ;

    fn update(&mut self, resource: &R) -> (r: Result<(), RosError>)
        ensures
            r is Ok ==> Self::update_post(*old(self), *final(self), *resource),
    ;

    fn set(&mut self, resource: &R) -> (r: Result<(), RosError>)
        ensures
            r is Ok ==> Self::set_post(*old(self), *final(self), *resource),
    ;

    fn add(&mut self, resource: &R) -> (r: Result<(), RosError>)
        ensures
            r is Ok ==> Self::add_post(*old(self), *final(self), *resource),
    ;

    fn delete(&mut self, resource: &R) -> (r: Result<(), RosError>)
        ensures
            r is Ok ==> Self::delete_post(*old(self), *final(self), *resource),
    ;
}

/// The rows a write-back touches: everything not flagged dynamic.
pub open spec fn pending_active<R: RouterOsResource>(s: Seq<R>) -> Seq<R>
    decreases s.len(),
{
    if s.len() == 0 {
        Seq::empty()
    } else if !s[0].is_dynamic_spec() {
        seq![s[0]] + pending_active(s.skip(1))
    } else {
        pending_active(s.skip(1))
    }
}

/// The rows an update pass touches: modified and not dynamic.
pub open spec fn pending_modified<R: RouterOsResource>(s: Seq<R>) -> Seq<R>
    decreases s.len(),
{
    if s.len() == 0 {
        Seq::empty()
    } else if !s[0].is_dynamic_spec() && is_modified_spec(s[0]) {
        seq![s[0]] + pending_modified(s.skip(1))
    } else {
        pending_modified(s.skip(1))
    }
}

/// The backend saw one successful delete per item, in order.
pub open spec fn chain_deletes<R: RouterOsResource, C: Client<R>>(
    pre: C,
    post: C,
    items: Seq<R>,
) -> bool
    decreases items.len(),
{
    if items.len() == 0 {
        pre == post
    } else {
        exists|mid: C|
            C::delete_post(pre, mid, items[0]) && chain_deletes(mid, post, items.skip(1))
    }
}

/// The backend saw one successful update per item, in order.
pub open spec fn chain_updates<R: RouterOsResource, C: Client<R>>(
    pre: C,
    post: C,
    items: Seq<R>,
) -> bool
    decreases items.len(),
{
    if items.len() == 0 {
        pre == post
    } else {
        exists|mid: C|
            C::update_post(pre, mid, items[0]) && chain_updates(mid, post, items.skip(1))
    }
}

/// The backend saw one successful add per item, in order.
pub open spec fn chain_adds<R: RouterOsResource, C: Client<R>>(
    pre: C,
    post: C,
    items: Seq<R>,
) -> bool
    decreases items.len(),
{
    if items.len() == 0 {
        pre == post
    } else {
        exists|mid: C| C::add_post(pre, mid, items[0]) && chain_adds(mid, post, items.skip(1))
    }
}

/// Deletes the non-dynamic rows of `items`, starting at `from`, in order.
fn delete_all<R: RouterOsResource, C: Client<R>>(
    client: &mut C,
    items: &Vec<R>,
    from: usize,
) -> (r: Result<(), RosError>)
    requires
        from <= items@.len(),
    ensures
        r is Ok ==> chain_deletes(
            *old(client),
            *final(client),
            pending_active(items@.skip(from as int)),
        ),
    decreases items@.len() - from,
{
    if from == items.len() {
        proof {
            assert(items@.skip(from as int) =~= Seq::<R>::empty());
        }
        return Ok(());
    }
    let ghost tail = items@.skip(from as int);
    proof {
        assert(tail[0] == items@[from as int]);
        assert(tail.skip(1) =~= items@.skip(from + 1));
    }
    if !items[from].is_dynamic() {
        match client.delete(&items[from]) {
            Ok(_) => {},
            Err(e) => {
                return Err(e);
            },
        }
        let ghost mid = *client;
        let out = delete_all(client, items, from + 1);
        proof {
            if out is Ok {
                let cur = *client;
                let pitems = pending_active(tail);
                assert(pitems == seq![tail[0]] + pending_active(tail.skip(1)));
                assert(pitems[0] == tail[0]);
                assert(pitems.skip(1) =~= pending_active(tail.skip(1)));
                assert(C::delete_post(*old(client), mid, tail[0]));
                assert(chain_deletes(mid, cur, pending_active(items@.skip(from + 1))));
                assert(chain_deletes(*old(client), cur, pitems));
            }
        }
        out
    } else {
        delete_all(client, items, from + 1)
    }
}

/// Updates the modified, non-dynamic rows of `items`, in order.
fn update_all<R: RouterOsResource, C: Client<R>>(
    client: &mut C,
    items: &Vec<R>,
    from: usize,
) -> (r: Result<(), RosError>)
    requires
        from <= items@.len(),
    ensures
        r is Ok ==> chain_updates(
            *old(client),
            *final(client),
            pending_modified(items@.skip(from as int)),
        ),
    decreases items@.len() - from,
{
    if from == items.len() {
        proof {
            assert(items@.skip(from as int) =~= Seq::<R>::empty());
        }
        return Ok(());
    }
    let ghost tail = items@.skip(from as int);
    proof {
        assert(tail[0] == items@[from as int]);
        assert(tail.skip(1) =~= items@.skip(from + 1));
    }
    if !items[from].is_dynamic() && crate::resource::is_modified(&items[from]) {
        match client.update(&items[from]) {
            Ok(_) => {},
            Err(e) => {
                return Err(e);
            },
        }
        let ghost mid = *client;
        let out = update_all(client, items, from + 1);
        proof {
            if out is Ok {
                let cur = *client;
                let pitems = pending_modified(tail);
                assert(pitems == seq![tail[0]] + pending_modified(tail.skip(1)));
                assert(pitems[0] == tail[0]);
                assert(pitems.skip(1) =~= pending_modified(tail.skip(1)));
                assert(C::update_post(*old(client), mid, tail[0]));
                assert(chain_updates(mid, cur, pending_modified(items@.skip(from + 1))));
                assert(chain_updates(*old(client), cur, pitems));
            }
        }
        out
    } else {
        update_all(client, items, from + 1)
    }
}

/// Adds the non-dynamic rows of `items`, in order.
fn add_all<R: RouterOsResource, C: Client<R>>(
    client: &mut C,
    items: &Vec<R>,
    from: usize,
) -> (r: Result<(), RosError>)
    requires
        from <= items@.len(),
    ensures
        r is Ok ==> chain_adds(
            *old(client),
            *final(client),
            pending_active(items@.skip(from as int)),
        ),
    decreases items@.len() - from,
{
    if from == items.len() {
        proof {
            assert(items@.skip(from as int) =~= Seq::<R>::empty());
        }
        return Ok(());
    }
    let ghost tail = items@.skip(from as int);
    proof {
        assert(tail[0] == items@[from as int]);
        assert(tail.skip(1) =~= items@.skip(from + 1));
    }
    if !items[from].is_dynamic() {
        match client.add(&items[from]) {
            Ok(_) => {},
            Err(e) => {
                return Err(e);
            },
        }
        let ghost mid = *client;
        let out = add_all(client, items, from + 1);
        proof {
            if out is Ok {
                let cur = *client;
                let pitems = pending_active(tail);
                assert(pitems == seq![tail[0]] + pending_active(tail.skip(1)));
                assert(pitems[0] == tail[0]);
                assert(pitems.skip(1) =~= pending_active(tail.skip(1)));
                assert(C::add_post(*old(client), mid, tail[0]));
                assert(chain_adds(mid, cur, pending_active(items@.skip(from + 1))));
                assert(chain_adds(*old(client), cur, pitems));
            }
        }
        out
    } else {
        add_all(client, items, from + 1)
    }
}

impl<R: RouterOsListResource> ResourceListAccess<R> {
    /// Fetches the category from a backend: all rows land in the fetched
    /// bucket and nothing is staged.
    pub fn fetch<C: Client<R>>(client: &mut C) -> (r: Result<Self, RosError>)
        ensures
            r matches Ok(a) ==> C::list_post(*old(client), *final(client), a.fetched())
                && a.created().len() == 0 && a.removed().len() == 0 && a.set_aside().len()
                == 0,
    {
        match client.list() {
            Ok(items) => Ok(Self::from_fetched(items)),
            Err(e) => Err(e),
        }
    }

    /// Re-fetches from the backend, dropping everything staged: afterwards
    /// the in-memory state is exactly what the backend just reported.
    pub fn rollback<C: Client<R>>(&mut self, client: &mut C) -> (r: Result<(), RosError>)
        ensures
            r is Ok ==> C::list_post(*old(client), *final(client), final(self).fetched())
                && final(self).created().len() == 0 && final(self).removed().len() == 0
                && final(self).set_aside().len() == 0,
            r is Err ==> *final(self) == *old(self),
    {
        let items = match client.list() {
            Ok(items) => items,
            Err(e) => {
                return Err(e);
            },
        };
        self.remove_data.clear();
        self.new_data.clear();
        self.remove_if_not_touched.clear();
        self.fetched_data = items;
        Ok(())
    }

    /// Commits the staged changes: first every delete (the removal bucket,
    /// then the set-aside rows), then every update of a modified fetched
    /// row, then every add of a new row — in that fixed order — skipping
    /// dynamic rows throughout; finally re-fetches, so that on success the
    /// in-memory state is what the backend now holds.
    pub fn commit<C: Client<R>>(&mut self, client: &mut C) -> (r: Result<(), RosError>)
        ensures
            r is Ok ==> exists|c1: C, c2: C, c3: C, c4: C|
                chain_deletes(*old(client), c1, pending_active(old(self).removed()))
                    && chain_deletes(c1, c2, pending_active(old(self).set_aside()))
                    && chain_updates(c2, c3, pending_modified(old(self).fetched()))
                    && chain_adds(c3, c4, pending_active(old(self).created()))
                    && C::list_post(c4, *final(client), final(self).fetched()),
            r is Ok ==> final(self).created().len() == 0 && final(self).removed().len() == 0
                && final(self).set_aside().len() == 0,
            r is Err ==> *final(self) == *old(self),
    {
        match delete_all(client, &self.remove_data, 0) {
            Ok(_) => {},
            Err(e) => {
                return Err(e);
            },
        }
        let ghost c1 = *client;
        match delete_all(client, &self.remove_if_not_touched, 0) {
            Ok(_) => {},
            Err(e) => {
                return Err(e);
            },
        }
        let ghost c2 = *client;
        match update_all(client, &self.fetched_data, 0) {
            Ok(_) => {},
            Err(e) => {
                return Err(e);
            },
        }
        let ghost c3 = *client;
        match add_all(client, &self.new_data, 0) {
            Ok(_) => {},
            Err(e) => {
                return Err(e);
            },
        }
        let ghost c4 = *client;
        proof {
            assert(self.remove_data@.skip(0) =~= old(self).removed());
            assert(self.remove_if_not_touched@.skip(0) =~= old(self).set_aside());
            assert(self.fetched_data@.skip(0) =~= old(self).fetched());
            assert(self.new_data@.skip(0) =~= old(self).created());
        }
        self.rollback(client)
    }
}


/// After fetching a single resource: some listing came back from the
/// backend, and the instance is its first row, or empty if there was none.
pub open spec fn single_fetched_post<R: RouterOsSingleResource, C: Client<R>>(
    cpre: C,
    cpost: C,
    data: R,
) -> bool {
    exists|items: Seq<R>|
        #![trigger C::list_post(cpre, cpost, items)]
        C::list_post(cpre, cpost, items) && if items.len() > 0 {
            data == items[0]
        } else {
            resource_empty(data)
        }
}

/// The staged state of a single resource category: exactly one instance.
#[derive(Debug)]
pub struct ResourceSingleAccess<R: RouterOsSingleResource> {
    data: R,
}

impl<R: RouterOsSingleResource> ResourceSingleAccess<R> {
    pub closed spec fn data_spec(&self) -> R {
        self.data
    }

    /// Fetches the single instance: the backend's first row, or an empty
    /// instance when the backend reports none.
    pub fn get<C: Client<R>>(client: &mut C) -> (r: Result<Self, RosError>)
        ensures
            r matches Ok(a) ==> single_fetched_post::<R, C>(
                *old(client),
                *final(client),
                a.data_spec(),
            ),
    {
        let mut items = match client.list() {
            Ok(items) => items,
            Err(e) => {
                return Err(e);
            },
        };
        let ghost cpost = *client;
        let ghost items0 = items@;
        if items.len() > 0 {
            let first = items.remove(0);
            let a = ResourceSingleAccess { data: first };
            proof {
                assert(C::list_post(*old(client), cpost, items0) && a.data_spec()
                    == items0[0]);
                assert(single_fetched_post::<R, C>(*old(client), cpost, a.data_spec()));
            }
            Ok(a)
        } else {
            let a = ResourceSingleAccess { data: R::new_default() };
            proof {
                assert(C::list_post(*old(client), cpost, items0) && resource_empty(
                    a.data_spec(),
                ));
                assert(single_fetched_post::<R, C>(*old(client), cpost, a.data_spec()));
            }
            Ok(a)
        }
    }

    pub fn data(&self) -> (r: &R)
        ensures
            *r == self.data_spec(),
    {
        &self.data
    }

    pub fn data_mut(&mut self) -> (r: &mut R)
        ensures
            *r == old(self).data_spec(),
            final(self).data_spec() == *final(r),
    {
        &mut self.data
    }

    /// Writes the instance back (a `set`), then re-fetches it.
    pub fn commit<C: Client<R>>(&mut self, client: &mut C) -> (r: Result<(), RosError>)
        ensures
            r is Ok ==> exists|mid: C|
                #![trigger C::set_post(*old(client), mid, old(self).data_spec())]
                C::set_post(*old(client), mid, old(self).data_spec())
                    && single_fetched_post::<R, C>(mid, *final(client), final(self).data_spec()),
            r is Err ==> final(self).data_spec() == old(self).data_spec(),
    {
        match client.set(&self.data) {
            Ok(_) => {},
            Err(e) => {
                return Err(e);
            },
        }
        let ghost mid = *client;
        let out = self.rollback(client);
        proof {
            if out is Ok {
                assert(C::set_post(*old(client), mid, old(self).data_spec()));
                assert(single_fetched_post::<R, C>(mid, *client, self.data_spec()));
                assert(exists|m: C|
                    #![trigger C::set_post(*old(client), m, old(self).data_spec())]
                    C::set_post(*old(client), m, old(self).data_spec())
                        && single_fetched_post::<R, C>(m, *client, self.data_spec()));
            }
        }
        out
    }

    /// Replaces the in-memory instance with what the backend holds.
    pub fn rollback<C: Client<R>>(&mut self, client: &mut C) -> (r: Result<(), RosError>)
        ensures
            r is Ok ==> single_fetched_post::<R, C>(
                *old(client),
                *final(client),
                final(self).data_spec(),
            ),
            r is Err ==> final(self).data_spec() == old(self).data_spec(),
    {
        let mut items = match client.list() {
            Ok(items) => items,
            Err(e) => {
                return Err(e);
            },
        };
        let ghost cpost = *client;
        let ghost items0 = items@;
        if items.len() > 0 {
            let first = items.remove(0);
            self.data = first;
            proof {
                assert(C::list_post(*old(client), cpost, items0) && self.data_spec()
                    == items0[0]);
                assert(single_fetched_post::<R, C>(*old(client), cpost, self.data_spec()));
            }
        } else {
            self.data = R::new_default();
            proof {
                assert(C::list_post(*old(client), cpost, items0) && resource_empty(
                    self.data_spec(),
                ));
                assert(single_fetched_post::<R, C>(*old(client), cpost, self.data_spec()));
            }
        }
        Ok(())
    }
}

} // verus!
