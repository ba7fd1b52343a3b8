use std::collections::HashSet;
use std::hash::Hash;
use vstd::prelude::*;
use vstd::std_specs::cmp::{PartialEqSpec, PartialOrdIs, PartialOrdSpec};
use vstd::std_specs::hash::obeys_key_model;
use vstd::utf8::encode_utf8;

verus! {

broadcast use vstd::std_specs::hash::group_hash_axioms;

/// Generic filter on a type: a pure predicate deciding whether a value
/// passes.
pub trait ApplyFilter<T>: Sized {
    /// Whether the comparisons this filter is built from are known to agree
    /// with their specifications. Whenever this holds, `passes` returns
    /// exactly `spec_passes`; it holds for every filter instantiation the
    /// store uses.
    spec fn obeys_passes_spec() -> bool;

    /// What it means for `value` to pass this filter.
    spec fn spec_passes(self, value: T) -> bool;

    fn passes(&self, value: &T) -> (r: bool)
        ensures
            Self::obeys_passes_spec() ==> r == self.spec_passes(*value),
    ;
}

/// Passes exactly the values equal to `value`.
pub struct ExactlyFilter<T: PartialEq> {
    pub value: T,
}

impl<T: PartialEq + PartialEqSpec> ApplyFilter<T> for ExactlyFilter<T> {
    open spec fn obeys_passes_spec() -> bool {
        T::obeys_eq_spec()
    }

    open spec fn spec_passes(self, value: T) -> bool {
        self.value.eq_spec(&value)
    }

    fn passes(&self, value: &T) -> (r: bool) {
        self.value.eq(value)
    }
}

/// Passes exactly the strings that contain `pattern`: those whose UTF-8
/// encoding holds the encoding of `pattern` as a contiguous subrange.
pub struct ContainsStringFilter {
    pub pattern: String,
}

impl ApplyFilter<String> for ContainsStringFilter {
    open spec fn obeys_passes_spec() -> bool {
        true
    }

    open spec fn spec_passes(self, value: String) -> bool {
        contains_subrange(encode_utf8(value@), encode_utf8(self.pattern@))
    }

    fn passes(&self, string: &String) -> (r: bool) {
        contains_bytes(string.as_str().as_bytes(), self.pattern.as_str().as_bytes())
    }
}

/// Lifts a filter on `T` to a filter on `Option<T>`: `OnlyNone` passes only
/// empty values, `OnlySome(inner)` passes only non-empty values whose
/// content passes `inner`.
pub enum OptionalFilter<T> {
    OnlySome(T),
    OnlyNone,
}

impl<T, F: ApplyFilter<T>> ApplyFilter<Option<T>> for OptionalFilter<F> {
    open spec fn obeys_passes_spec() -> bool {
        F::obeys_passes_spec()
    }

    open spec fn spec_passes(self, value: Option<T>) -> bool {
        match self {
            OptionalFilter::OnlySome(filter) => value matches Some(v) && filter.spec_passes(v),
            OptionalFilter::OnlyNone => value is None,
        }
    }

    fn passes(&self, value: &Option<T>) -> (r: bool) {
        match self {
            OptionalFilter::OnlySome(filter) => match value {
                Some(v) => filter.passes(v),
                None => false,
            },
            OptionalFilter::OnlyNone => value.is_none(),
        }
    }
}

/// Passes exactly the values that are members of `set`.
pub struct SetFilter<T> {
    pub set: HashSet<T>,
}

impl<T: Eq + Hash> ApplyFilter<T> for SetFilter<T> {
    open spec fn obeys_passes_spec() -> bool {
        obeys_key_model::<T>()
    }

    open spec fn spec_passes(self, value: T) -> bool {
        self.set@.contains(value)
    }

    fn passes(&self, value: &T) -> (r: bool) {
        self.set.contains(value)
    }
}

/// Passes exactly the values within the inclusive bounds present; an absent
/// bound leaves that side unbounded.
pub struct OrderedRangeFilter<T> {
    pub lower_bound: Option<T>,
    pub upper_bound: Option<T>,
}

impl<T: PartialOrd + PartialOrdSpec> ApplyFilter<T> for OrderedRangeFilter<T> {
    open spec fn obeys_passes_spec() -> bool {
        T::obeys_partial_cmp_spec()
    }

    open spec fn spec_passes(self, value: T) -> bool {
        &&& (self.lower_bound matches Some(lower) ==> value.is_ge(&lower))
        &&& (self.upper_bound matches Some(upper) ==> value.is_le(&upper))
    }

    fn passes(&self, value: &T) -> (r: bool) {
        match (&self.lower_bound, &self.upper_bound) {
            (Some(lower), Some(upper)) => value.ge(lower) && value.le(upper),
            (Some(lower), None) => value.ge(lower),
            (None, Some(upper)) => value.le(upper),
            (None, None) => true,
        }
    }
}

/// Whether `text` holds `pattern` as a contiguous subrange. An empty
/// pattern is contained in every sequence.
pub open spec fn contains_subrange(text: Seq<u8>, pattern: Seq<u8>) -> bool {
    exists|i: int|
        0 <= i <= text.len() - pattern.len() && #[trigger] text.subrange(i, i + pattern.len())
            == pattern
}

/// Whether `pattern` occurs in `text` starting at position `i`.
fn matches_at(text: &[u8], pattern: &[u8], i: usize) -> (r: bool)
    requires
        i + pattern@.len() <= text@.len(),
    ensures
        r == (text@.subrange(i as int, i + pattern@.len()) == pattern@),
{
    let text_len = text.len();
    let pattern_len = pattern.len();
    let mut j: usize = 0;
    while j < pattern_len
        invariant
            i + pattern@.len() <= text@.len(),
            text_len == text@.len(),
            pattern_len == pattern@.len(),
            j <= pattern_len,
            forall|k: int| 0 <= k < j ==> text@[i + k] == pattern@[k],
        decreases pattern_len - j,
    {
        if text[i + j] != pattern[j] {
            assert(text@.subrange(i as int, i + pattern@.len())[j as int] != pattern@[j as int]);
            return false;
        }
        j += 1;
    }
    assert(text@.subrange(i as int, i + pattern@.len()) =~= pattern@);
    true
}

/// Byte-level substring search: the naive quadratic scan, checked exactly
/// against `contains_subrange`.
fn contains_bytes(text: &[u8], pattern: &[u8]) -> (r: bool)
    ensures
        r == contains_subrange(text@, pattern@),
{
    let text_len = text.len();
    let pattern_len = pattern.len();
    if pattern_len > text_len {
        assert(!contains_subrange(text@, pattern@));
        return false;
    }
    if pattern_len == 0 {
        assert(contains_subrange(text@, pattern@)) by {
            assert(text@.subrange(0, 0 + pattern@.len() as int) =~= pattern@);
        }
        return true;
    }
    let mut i: usize = 0;
    while i <= text_len - pattern_len
        invariant
            text_len == text@.len(),
            pattern_len == pattern@.len(),
            0 < pattern_len <= text_len,
            i <= text_len - pattern_len + 1,
            forall|k: int|
                0 <= k < i ==> #[trigger] text@.subrange(k, k + pattern@.len()) != pattern@,
        decreases text_len - pattern_len + 1 - i,
    {
        if matches_at(text, pattern, i) {
            return true;
        }
        i += 1;
    }
    false
}

} // verus!
