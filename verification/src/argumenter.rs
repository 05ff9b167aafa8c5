//! Helps building SQL query strings by generating a positional argument for
//! every parameter added: the `i`-th call to [`Argumenter::add`] yields the
//! text `$i` and records the value, so that the statement's placeholders and
//! the argument list line up one slot per value, in insertion order.

use vstd::prelude::*;
use vstd::string::*;
use crate::decimal::{dec_digits, usize_to_string};

verus! {

/// The text of the `i`-th positional argument (1-based): `$` followed by the
/// decimal numeral of `i`.
pub open spec fn positional_arg(i: nat) -> Seq<char> {
    seq!['$'] + dec_digits(i)
}

/// Collects statement parameters in order, handing out the matching
/// positional-argument text for each.
pub struct Argumenter<T> {
    pub values: Vec<T>,
}

impl<T> Argumenter<T> {
    /// Records `v` as the next parameter and returns its placeholder text.
    pub fn add(&mut self, v: T) -> (r: String)
        ensures
            final(self).values@ == old(self).values@.push(v),
            r@ == positional_arg(old(self).values@.len() + 1),
    {
        self.values.push(v);
        let mut s = String::from_str("$");
        let numeral = usize_to_string(self.values.len());
        s.append(numeral.as_str());
        proof {
            reveal_strlit("$");
            assert(s@ =~= positional_arg(old(self).values@.len() + 1));
        }
        s
    }

    /// The parameters recorded so far, in the order they were added.
    pub fn values(&self) -> (r: &Vec<T>)
        ensures
            r@ == self.values@,
    {
        &self.values
    }
}

} // verus!
