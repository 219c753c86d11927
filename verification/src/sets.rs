//! Sets of a scalar value, written as a comma-joined list on the wire.
//! Decoding merges duplicates; encoding joins the stored order.  Two sets
//! are equal when they hold the same values, whatever the order.

use vstd::prelude::*;

use crate::RosError;
use crate::ValueFormat;
use crate::text::spec_find_char;
use crate::text::find_char;
use crate::text::push_char;
use crate::text::substring;
use crate::text::lemma_find_char_first;
use crate::text::is_dec_digit;
use crate::text::spec_dec_digits;
use crate::text::lemma_find_char_absent;
use crate::value::RosValue;
use vstd::string::StrSliceExecFns;
use vstd::string::StringExecFns;

verus! {

/// Does `s` hold a value equal (by the element's equality) to `x`?
pub open spec fn seq_contains_veq<T: RosValue>(s: Seq<T::V>, x: T::V) -> bool {
    exists|i: int| 0 <= i < s.len() && T::veq(s[i], x)
}

/// Same values on both sides, whatever the order.
pub open spec fn set_veq<T: RosValue>(a: Seq<T::V>, b: Seq<T::V>) -> bool {
    (forall|i: int| 0 <= i < a.len() ==> #[trigger] seq_contains_veq::<T>(b, a[i]))
        && (forall|i: int| 0 <= i < b.len() ==> #[trigger] seq_contains_veq::<T>(a, b[i]))
}

/// No two stored values are equal.
pub open spec fn set_wf<T: RosValue>(s: Seq<T::V>) -> bool {
    forall|i: int, j: int| 0 <= i < j < s.len() ==> !T::veq(#[trigger] s[i], #[trigger] s[j])
}

/// The comma-separated pieces of `s` (an empty string is one empty piece).
pub open spec fn split_commas(s: Seq<char>) -> Seq<Seq<char>>
    decreases s.len(),
    via split_commas_decreases
{
    match spec_find_char(s, ',') {
        None => seq![s],
        Some(i) => seq![s.take(i)] + split_commas(s.skip(i + 1)),
    }
}

#[via_fn]
proof fn split_commas_decreases(s: Seq<char>) {
    crate::text::lemma_find_char_props(s, ',');
}

/// Decodes each piece in turn, inserting values not yet present.
pub open spec fn set_decode_parts<T: RosValue>(parts: Seq<Seq<char>>, acc: Seq<T::V>) -> Option<
    Seq<T::V>,
>
    decreases parts.len(),
{
    if parts.len() == 0 {
        Some(acc)
    } else {
        match T::decode_spec(parts[0]) {
            None => None,
            Some(v) => set_decode_parts::<T>(
                parts.skip(1),
                if seq_contains_veq::<T>(acc, v) {
                    acc
                } else {
                    acc.push(v)
                },
            ),
        }
    }
}

pub open spec fn spec_decode_set<T: RosValue>(s: Seq<char>) -> Option<Seq<T::V>> {
    set_decode_parts::<T>(split_commas(s), Seq::empty())
}

/// Joins the encodings of the stored values with commas, in stored order.
pub open spec fn spec_encode_set<T: RosValue>(v: Seq<T::V>, f: ValueFormat) -> Seq<char>
    decreases v.len(),
{
    if v.len() == 0 {
        Seq::empty()
    } else if v.len() == 1 {
        T::encode_spec(v[0], f)
    } else {
        T::encode_spec(v[0], f) + seq![','] + spec_encode_set::<T>(v.skip(1), f)
    }
}

/// The same join, decomposed at the back instead of the front.
proof fn lemma_set_encode_snoc<T: RosValue>(v: Seq<T::V>, f: ValueFormat)
    requires
        v.len() >= 2,
    ensures
        spec_encode_set::<T>(v, f) == spec_encode_set::<T>(v.drop_last(), f) + seq![',']
            + T::encode_spec(v.last(), f),
    decreases v.len(),
{
    if v.len() == 2 {
        assert(v.skip(1) =~= seq![v[1]]);
        assert(v.drop_last() =~= seq![v[0]]);
        assert(spec_encode_set::<T>(v.skip(1), f) == T::encode_spec(v[1], f));
        assert(spec_encode_set::<T>(v.drop_last(), f) == T::encode_spec(v[0], f));
    } else {
        lemma_set_encode_snoc::<T>(v.skip(1), f);
        assert(v.skip(1).drop_last() =~= v.drop_last().skip(1));
        assert(v.skip(1).last() == v.last());
        assert(spec_encode_set::<T>(v.drop_last(), f) == T::encode_spec(v[0], f) + seq![',']
            + spec_encode_set::<T>(v.drop_last().skip(1), f));
        assert(spec_encode_set::<T>(v, f) =~= spec_encode_set::<T>(v.drop_last(), f)
            + seq![','] + T::encode_spec(v.last(), f));
    }
}

/// The encodings of the stored values, one piece per value.
pub open spec fn set_pieces<T: RosValue>(v: Seq<T::V>, f: ValueFormat) -> Seq<Seq<char>> {
    Seq::new(v.len(), |i: int| T::encode_spec(v[i], f))
}

/// Splitting the comma-join of non-empty, comma-free pieces gives the pieces
/// back.
proof fn lemma_split_join<T: RosValue>(v: Seq<T::V>, f: ValueFormat)
    requires
        v.len() > 0,
        forall|i: int| 0 <= i < v.len() ==> (#[trigger] T::encode_spec(v[i], f)).len() > 0,
        forall|i: int, j: int|
            0 <= i < v.len() && 0 <= j < T::encode_spec(v[i], f).len()
                ==> #[trigger] T::encode_spec(v[i], f)[j] != ',',
    ensures
        split_commas(spec_encode_set::<T>(v, f)) == set_pieces::<T>(v, f),
    decreases v.len(),
{
    let s = spec_encode_set::<T>(v, f);
    let head = T::encode_spec(v[0], f);
    if v.len() == 1 {
        lemma_find_char_absent(s, ',');
        assert(split_commas(s) =~= set_pieces::<T>(v, f));
    } else {
        let rest = spec_encode_set::<T>(v.skip(1), f);
        assert(s == head + seq![','] + rest);
        let n = head.len() as int;
        assert(s[n] == ',');
        assert(forall|j: int| 0 <= j < n ==> s[j] == head[j] && s[j] != ',');
        lemma_find_char_first(s, ',', n);
        assert(s.take(n) =~= head);
        assert(s.skip(n + 1) =~= rest);
        let w = v.skip(1);
        assert(forall|i: int| 0 <= i < w.len() ==> w[i] == v[i + 1]);
        lemma_split_join::<T>(w, f);
        assert(split_commas(s) == seq![head] + set_pieces::<T>(w, f));
        assert(seq![head] + set_pieces::<T>(w, f) =~= set_pieces::<T>(v, f));
    }
}

/// Decoding the pieces of `v` appends `v` to the accumulator, provided no
/// value repeats and none is in the accumulator already.
proof fn lemma_decode_pieces<T: RosValue>(v: Seq<T::V>, acc: Seq<T::V>, f: ValueFormat)
    requires
        set_wf::<T>(v),
        forall|i: int|
            0 <= i < v.len() ==> T::decode_spec(#[trigger] T::encode_spec(v[i], f)) == Some(
                v[i],
            ),
        forall|i: int| 0 <= i < v.len() ==> !seq_contains_veq::<T>(acc, #[trigger] v[i]),
    ensures
        set_decode_parts::<T>(set_pieces::<T>(v, f), acc) == Some(acc + v),
    decreases v.len(),
{
    let parts = set_pieces::<T>(v, f);
    if v.len() == 0 {
        assert(parts =~= Seq::<Seq<char>>::empty());
        assert(acc + v =~= acc);
    } else {
        assert(parts[0] == T::encode_spec(v[0], f));
        assert(T::decode_spec(parts[0]) == Some(v[0]));
        assert(!seq_contains_veq::<T>(acc, v[0]));
        let acc2 = acc.push(v[0]);
        let w = v.skip(1);
        assert(forall|i: int| 0 <= i < w.len() ==> w[i] == v[i + 1]);
        assert forall|i: int| 0 <= i < w.len() implies !seq_contains_veq::<T>(
            acc2,
            #[trigger] w[i],
        ) by {
            assert(!seq_contains_veq::<T>(acc, v[i + 1]));
            assert(!T::veq(v[0], v[i + 1]));
            if seq_contains_veq::<T>(acc2, w[i]) {
                let j = choose|j: int| 0 <= j < acc2.len() && T::veq(acc2[j], w[i]);
                if j < acc.len() {
                    assert(T::veq(acc[j], v[i + 1]));
                } else {
                    assert(acc2[j] == v[0]);
                }
            }
        }
        lemma_decode_pieces::<T>(w, acc2, f);
        assert(parts.skip(1) =~= set_pieces::<T>(w, f));
        assert(acc2 + w =~= acc + v);
    }
}

/// Set round trip: decoding an encoded set gives the same values back, for
/// any non-empty duplicate-free set whose element codec round-trips and
/// emits non-empty, comma-free text.
pub proof fn lemma_set_round_trip<T: RosValue>(v: Seq<T::V>, f: ValueFormat)
    requires
        v.len() > 0,
        set_wf::<T>(v),
        forall|i: int|
            0 <= i < v.len() ==> T::decode_spec(#[trigger] T::encode_spec(v[i], f)) == Some(
                v[i],
            ),
        forall|i: int| 0 <= i < v.len() ==> (#[trigger] T::encode_spec(v[i], f)).len() > 0,
        forall|i: int, j: int|
            0 <= i < v.len() && 0 <= j < T::encode_spec(v[i], f).len()
                ==> #[trigger] T::encode_spec(v[i], f)[j] != ',',
    ensures
        spec_decode_set::<T>(spec_encode_set::<T>(v, f)) == Some(v),
{
    lemma_split_join::<T>(v, f);
    lemma_decode_pieces::<T>(v, Seq::empty(), f);
    assert(Seq::empty() + v =~= v);
}

/// The set round trip for sets of numbers: decimal digits round-trip, are
/// non-empty and hold no comma.
pub proof fn lemma_set_round_trip_u16(v: Seq<u16>, f: ValueFormat)
    requires
        v.len() > 0,
        set_wf::<u16>(v),
    ensures
        spec_decode_set::<u16>(spec_encode_set::<u16>(v, f)) == Some(v),
{
    assert forall|i: int| 0 <= i < v.len() implies u16::decode_spec(
        #[trigger] u16::encode_spec(v[i], f),
    ) == Some(v[i]) && u16::encode_spec(v[i], f).len() > 0 by {
        let e = spec_dec_digits(v[i] as nat);
        crate::text::lemma_dec_round_trip(v[i] as nat);
        crate::text::lemma_dec_digits_are_digits(v[i] as nat);
        if e.len() >= 2 {
            assert(is_dec_digit(e[1]));
            assert(e[1] != 'x');
        }
    }
    assert forall|i: int, j: int|
        0 <= i < v.len() && 0 <= j < u16::encode_spec(v[i], f).len() implies #[trigger] u16::encode_spec(
        v[i],
        f,
    )[j] != ',' by {
        crate::text::lemma_dec_digits_are_digits(v[i] as nat);
        assert(is_dec_digit(spec_dec_digits(v[i] as nat)[j]));
    }
    lemma_set_round_trip::<u16>(v, f);
}

/// An unordered collection of values, without duplicates.
#[derive(Debug, Clone)]
pub struct ValueSet<T> {
    items: Vec<T>,
}

impl<T: View> View for ValueSet<T> {
    type V = Seq<T::V>;

    closed spec fn view(&self) -> Seq<T::V> {
        self.items@.map_values(|t: T| t@)
    }
}

impl<T: RosValue> ValueSet<T> {
    pub fn new() -> (r: Self)
        ensures
            r@ == Seq::<T::V>::empty(),
    {
        let r = ValueSet { items: Vec::new() };
        proof {
            assert(r@ =~= Seq::<T::V>::empty());
        }
        r
    }

    pub fn len(&self) -> (r: usize)
        ensures
            r == self@.len(),
    {
        self.items.len()
    }

    pub fn contains(&self, x: &T) -> (r: bool)
        ensures
            r == seq_contains_veq::<T>(self@, x@),
    {
        let n = self.items.len();
        let mut i: usize = 0;
        while i < n
            invariant
                n == self.items.len(),
                0 <= i <= n,
                self@.len() == n,
                forall|j: int| 0 <= j < i ==> !T::veq(self@[j], x@),
            decreases n - i,
        {
            if self.items[i].eq_value(x) {
                proof {
                    assert(self@[i as int] == self.items@[i as int]@);
                    assert(T::veq(self@[i as int], x@));
                }
                return true;
            }
            proof {
                assert(self@[i as int] == self.items@[i as int]@);
            }
            i = i + 1;
        }
        false
    }

    /// Adds `x` unless an equal value is already present.
    pub fn insert(&mut self, x: T)
        ensures
            final(self)@ == if seq_contains_veq::<T>(old(self)@, x@) {
                old(self)@
            } else {
                old(self)@.push(x@)
            },
    {
        if !self.contains(&x) {
            let ghost pre = self@;
            self.items.push(x);
            proof {
                assert(self@ =~= pre.push(x@));
            }
        }
    }
}

impl<T: RosValue> RosValue for ValueSet<T> {
    open spec fn decode_spec(s: Seq<char>) -> Option<Seq<T::V>> {
        spec_decode_set::<T>(s)
    }

    open spec fn encode_spec(v: Seq<T::V>, f: ValueFormat) -> Seq<char> {
        spec_encode_set::<T>(v, f)
    }

    open spec fn veq(a: Seq<T::V>, b: Seq<T::V>) -> bool {
        set_veq::<T>(a, b)
    }

    proof fn veq_reflexive(a: Seq<T::V>) {
        assert forall|i: int| 0 <= i < a.len() implies seq_contains_veq::<T>(a, a[i]) by {
            T::veq_reflexive(a[i]);
        }
    }

    proof fn veq_symmetric(a: Seq<T::V>, b: Seq<T::V>) {
    }

    #[verifier::rlimit(100)]
    #[verifier::spinoff_prover]
    proof fn veq_transitive(a: Seq<T::V>, b: Seq<T::V>, c: Seq<T::V>) {
        if set_veq::<T>(a, b) && set_veq::<T>(b, c) {
            assert forall|i: int| 0 <= i < a.len() implies seq_contains_veq::<T>(c, a[i]) by {
                assert(seq_contains_veq::<T>(b, a[i]));
                let j = choose|j: int| 0 <= j < b.len() && T::veq(b[j], a[i]);
                assert(seq_contains_veq::<T>(c, b[j]));
                let k = choose|k: int| 0 <= k < c.len() && T::veq(c[k], b[j]);
                T::veq_transitive(c[k], b[j], a[i]);
                assert(T::veq(c[k], a[i]));
            }
            assert forall|i: int| 0 <= i < c.len() implies seq_contains_veq::<T>(a, c[i]) by {
                assert(seq_contains_veq::<T>(b, c[i]));
                let j = choose|j: int| 0 <= j < b.len() && T::veq(b[j], c[i]);
                assert(seq_contains_veq::<T>(a, b[j]));
                let k = choose|k: int| 0 <= k < a.len() && T::veq(a[k], b[j]);
                T::veq_transitive(a[k], b[j], c[i]);
                assert(T::veq(a[k], c[i]));
            }
        }
    }

    fn from_api(value: &str) -> (r: Result<Self, RosError>) {
        let len = value.unicode_len();
        let mut out: ValueSet<T> = ValueSet::new();
        let mut pos: usize = 0;
        proof {
            assert(value@.skip(0) =~= value@);
        }
        loop
            invariant_except_break
                len == value@.len(),
                0 <= pos <= len,
                spec_decode_set::<T>(value@) == set_decode_parts::<T>(
                    split_commas(value@.skip(pos as int)),
                    out@,
                ),
            ensures
                spec_decode_set::<T>(value@) == Some(out@),
            decreases len - pos,
        {
            let rest = value.substring_char(pos, len);
            proof {
                assert(rest@ =~= value@.skip(pos as int));
            }
            match find_char(rest, ',') {
                Some(i) => {
                    let part = substring(rest, 0, i);
                    proof {
                        assert(part@ =~= value@.skip(pos as int).take(i as int));
                    }
                    match T::from_api(part.as_str()) {
                        Ok(v) => {
                            let ghost pre_out = out@;
                            let ghost tail = value@.skip(pos as int);
                            out.insert(v);
                            proof {
                                let parts = split_commas(tail);
                                assert(parts == seq![tail.take(i as int)] + split_commas(
                                    tail.skip(i + 1),
                                ));
                                assert(parts[0] == tail.take(i as int));
                                assert(T::decode_spec(parts[0]) == Some(v@));
                                assert(parts.skip(1) =~= split_commas(tail.skip(i + 1)));
                                assert(set_decode_parts::<T>(parts, pre_out)
                                    == set_decode_parts::<T>(
                                    split_commas(tail.skip(i + 1)),
                                    out@,
                                ));
                                assert(tail.skip(i + 1) =~= value@.skip(pos + i + 1));
                            }
                            pos = pos + i + 1;
                        },
                        Err(e) => {
                            proof {
                                let tail = value@.skip(pos as int);
                                assert(split_commas(tail)[0] == tail.take(i as int));
                            }
                            return Err(e);
                        },
                    }
                },
                None => {
                    match T::from_api(rest) {
                        Ok(v) => {
                            let ghost pre_out = out@;
                            let ghost tail = value@.skip(pos as int);
                            out.insert(v);
                            proof {
                                let parts = split_commas(tail);
                                assert(parts == seq![tail]);
                                assert(parts[0] == tail);
                                assert(T::decode_spec(parts[0]) == Some(v@));
                                assert(parts.skip(1) =~= Seq::<Seq<char>>::empty());
                                assert(set_decode_parts::<T>(parts.skip(1), out@) == Some(
                                    out@,
                                ));
                                assert(set_decode_parts::<T>(parts, pre_out) == Some(out@));
                            }
                            break ;
                        },
                        Err(e) => {
                            proof {
                                let tail = value@.skip(pos as int);
                                assert(split_commas(tail)[0] == tail);
                            }
                            return Err(e);
                        },
                    }
                },
            }
        }
        Ok(out)
    }

    fn to_api(&self, format: &ValueFormat) -> (r: String) {
        let n = self.items.len();
        let mut out = String::new();
        let mut i: usize = 0;
        while i < n
            invariant
                n == self.items.len(),
                0 <= i <= n,
                self@.len() == n,
                out@ == spec_encode_set::<T>(self@.take(i as int), *format),
            decreases n - i,
        {
            if i > 0 {
                push_char(&mut out, ',');
            }
            let piece = self.items[i].to_api(format);
            out.append(piece.as_str());
            proof {
                let pre = self@.take(i as int);
                let cur = self@.take(i + 1);
                assert(cur.drop_last() =~= pre);
                assert(cur.last() == self@[i as int]);
                if i == 0 {
                    assert(cur =~= seq![self@[0]]);
                    assert(out@ =~= T::encode_spec(self@[0], *format));
                } else {
                    lemma_set_encode_snoc::<T>(cur, *format);
                    assert(out@ =~= spec_encode_set::<T>(pre, *format) + seq![',']
                        + T::encode_spec(self@[i as int], *format));
                }
            }
            i = i + 1;
        }
        proof {
            assert(self@.take(n as int) =~= self@);
        }
        out
    }

    fn eq_value(&self, other: &Self) -> (r: bool) {
        let n = self.items.len();
        let m = other.items.len();
        let mut i: usize = 0;
        while i < n
            invariant
                n == self.items.len(),
                m == other.items.len(),
                0 <= i <= n,
                self@.len() == n,
                other@.len() == m,
                forall|j: int| 0 <= j < i ==> seq_contains_veq::<T>(other@, #[trigger] self@[j]),
            decreases n - i,
        {
            proof {
                assert(self@[i as int] == self.items@[i as int]@);
            }
            if !other.contains(&self.items[i]) {
                return false;
            }
            i = i + 1;
        }
        let mut k: usize = 0;
        while k < m
            invariant
                n == self.items.len(),
                m == other.items.len(),
                0 <= k <= m,
                self@.len() == n,
                other@.len() == m,
                forall|j: int| 0 <= j < n ==> seq_contains_veq::<T>(other@, #[trigger] self@[j]),
                forall|j: int| 0 <= j < k ==> seq_contains_veq::<T>(self@, #[trigger] other@[j]),
            decreases m - k,
        {
            proof {
                assert(other@[k as int] == other.items@[k as int]@);
            }
            if !self.contains(&other.items[k]) {
                return false;
            }
            k = k + 1;
        }
        true
    }
}

} // verus!
