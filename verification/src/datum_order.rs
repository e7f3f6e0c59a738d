//! The comparison operators on values.

use crate::bytes::Order;
use crate::datum::{datum_order_is_total, Datum};
use std::cmp::Ordering;
use vstd::prelude::*;
use vstd::std_specs::cmp::{PartialEqSpecImpl, PartialOrdSpecImpl};

verus! {

impl PartialEq for Datum {
    fn eq(&self, other: &Datum) -> (equal: bool) {
        proof {
            datum_order_is_total(self@, other@);
        }
        match self.compare(other) {
            Order::Equal => true,
            _ => false,
        }
    }
}

impl PartialEqSpecImpl for Datum {
    open spec fn obeys_eq_spec() -> bool {
        true
    }

    open spec fn eq_spec(&self, other: &Datum) -> bool {
        self@.same(other@)
    }
}

impl Eq for Datum {

}

impl PartialOrd for Datum {
    fn partial_cmp(&self, other: &Datum) -> (order: Option<Ordering>) {
        match self.compare(other) {
            Order::Less => Some(Ordering::Less),
            Order::Equal => Some(Ordering::Equal),
            Order::Greater => Some(Ordering::Greater),
        }
    }
}

impl PartialOrdSpecImpl for Datum {
    open spec fn obeys_partial_cmp_spec() -> bool {
        true
    }

    open spec fn partial_cmp_spec(&self, other: &Datum) -> Option<Ordering> {
        if self@.before(other@) {
            Some(Ordering::Less)
        } else if other@.before(self@) {
            Some(Ordering::Greater)
        } else {
            Some(Ordering::Equal)
        }
    }
}

} // verus!
