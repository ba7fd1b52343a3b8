use vstd::prelude::*;

verus! {

/// A point in time restricted to one-second resolution: the number of whole
/// seconds since the Unix epoch. Every temporal field the store hands out or
/// accepts crosses its boundary in this form.
#[derive(Clone, Copy, PartialEq, Eq, Structural, Debug, Hash)]
pub struct MyDateTime(pub i64);

impl PartialOrd for MyDateTime {
    fn partial_cmp(&self, other: &MyDateTime) -> (r: Option<core::cmp::Ordering>) {
        if self.0 < other.0 {
            Some(core::cmp::Ordering::Less)
        } else if self.0 == other.0 {
            Some(core::cmp::Ordering::Equal)
        } else {
            Some(core::cmp::Ordering::Greater)
        }
    }
}

impl vstd::std_specs::cmp::PartialOrdSpecImpl for MyDateTime {
    open spec fn obeys_partial_cmp_spec() -> bool {
        true
    }

    open spec fn partial_cmp_spec(&self, other: &MyDateTime) -> Option<core::cmp::Ordering> {
        if self.0 < other.0 {
            Some(core::cmp::Ordering::Less)
        } else if self.0 == other.0 {
            Some(core::cmp::Ordering::Equal)
        } else {
            Some(core::cmp::Ordering::Greater)
        }
    }
}

impl From<i64> for MyDateTime {
    fn from(value: i64) -> (r: MyDateTime) {
        MyDateTime(value)
    }
}

impl vstd::std_specs::convert::FromSpecImpl<i64> for MyDateTime {
    open spec fn obeys_from_spec() -> bool {
        true
    }

    open spec fn from_spec(value: i64) -> MyDateTime {
        MyDateTime(value)
    }
}

/// Relies on chrono::Utc::now for the current wall-clock time, reduced to
/// whole seconds since the Unix epoch by chrono's DateTime::timestamp.
/// Nothing is promised of the value: the clock may read anything.
#[verifier::external_body]
pub(crate) fn now() -> MyDateTime {
    MyDateTime(chrono::Utc::now().timestamp())
}

} // verus!
