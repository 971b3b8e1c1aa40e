//! The order of spans and stamps: that of their nanoseconds.

use crate::span::{NonZeroTimeSpan, TimeSpan};
use crate::stamp::TimeStamp;
use core::cmp::Ordering;
use vstd::prelude::*;
use vstd::std_specs::cmp::PartialOrdSpecImpl;

verus! {

impl PartialOrd for TimeSpan {
    /// Spans compare as their nanoseconds do: any two of them are ordered.
    fn partial_cmp(&self, other: &TimeSpan) -> (r: Option<Ordering>) {
        let a: i64 = self.as_nanos();
        let b: i64 = other.as_nanos();
        if a < b {
            Some(Ordering::Less)
        } else if a == b {
            Some(Ordering::Equal)
        } else {
            Some(Ordering::Greater)
        }
    }
}

impl PartialOrdSpecImpl for TimeSpan {
    open spec fn obeys_partial_cmp_spec() -> bool {
        true
    }

    open spec fn partial_cmp_spec(&self, other: &TimeSpan) -> Option<Ordering> {
        if self@ < other@ {
            Some(Ordering::Less)
        } else if self@ == other@ {
            Some(Ordering::Equal)
        } else {
            Some(Ordering::Greater)
        }
    }
}

impl PartialOrd for NonZeroTimeSpan {
    /// Spans compare as their nanoseconds do: any two of them are ordered.
    fn partial_cmp(&self, other: &NonZeroTimeSpan) -> (r: Option<Ordering>) {
        let a: u64 = self.as_nanos();
        let b: u64 = other.as_nanos();
        if a < b {
            Some(Ordering::Less)
        } else if a == b {
            Some(Ordering::Equal)
        } else {
            Some(Ordering::Greater)
        }
    }
}

impl PartialOrdSpecImpl for NonZeroTimeSpan {
    open spec fn obeys_partial_cmp_spec() -> bool {
        true
    }

    open spec fn partial_cmp_spec(&self, other: &NonZeroTimeSpan) -> Option<Ordering> {
        if self@ < other@ {
            Some(Ordering::Less)
        } else if self@ == other@ {
            Some(Ordering::Equal)
        } else {
            Some(Ordering::Greater)
        }
    }
}

impl PartialOrd for TimeStamp {
    /// Stamps compare as their distances from the reference point do: the
    /// earlier stamp is the lesser one.
    fn partial_cmp(&self, other: &TimeStamp) -> (r: Option<Ordering>) {
        let a: u64 = self.nanos_since_start();
        let b: u64 = other.nanos_since_start();
        if a < b {
            Some(Ordering::Less)
        } else if a == b {
            Some(Ordering::Equal)
        } else {
            Some(Ordering::Greater)
        }
    }
}

impl PartialOrdSpecImpl for TimeStamp {
    open spec fn obeys_partial_cmp_spec() -> bool {
        true
    }

    open spec fn partial_cmp_spec(&self, other: &TimeStamp) -> Option<Ordering> {
        if self@ < other@ {
            Some(Ordering::Less)
        } else if self@ == other@ {
            Some(Ordering::Equal)
        } else {
            Some(Ordering::Greater)
        }
    }
}

} // verus!
