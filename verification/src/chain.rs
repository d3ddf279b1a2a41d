//! The causal-chain iterator.
//!
//! A [`Chain`] yields an error-like value first and then, in order, every
//! value reachable through its underlying-cause links, outermost first.  It
//! is finite because causes are owned, forward-only, and consumed as it
//! advances; a fresh chain built from the same start yields the same
//! sequence, because what it yields is fixed by the start value alone.

use crate::error::Error;
use crate::error::ErrorValue;
use crate::error::NodeModel;
use crate::error::cause_count;
use crate::error::chain_model;
use vstd::prelude::*;

verus! {

/// The iterator over an error-like value and its transitive causes.
pub struct Chain {
    rest: Option<ErrorValue>,
}

/// The sequence a chain has yet to yield.
pub open spec fn remaining_model(o: Option<ErrorValue>) -> Seq<NodeModel> {
    match o {
        Option::None => Seq::empty(),
        Option::Some(v) => chain_model(v),
    }
}

impl View for Chain {
    type V = Seq<NodeModel>;

    closed spec fn view(&self) -> Seq<NodeModel> {
        remaining_model(self.rest)
    }
}

impl Chain {
    /// A fresh iterator over `start` and its transitive causes.  What it will
    /// yield is exactly the chain of `start`, so two fresh chains built from
    /// the same value yield identical sequences.
    pub fn new(start: &ErrorValue) -> (c: Chain)
        ensures
            c@ == start@,
    {
        Chain { rest: Option::Some(start.duplicate()) }
    }

    /// The next error-like value, or `None` once the most recently yielded
    /// value reports no cause.  A yielded value carries its own remaining
    /// causes, so its chain is everything this iterator had left.
    pub fn next(&mut self) -> (r: Option<ErrorValue>)
        ensures
            old(self)@.len() == 0 ==> r is None && final(self)@ == old(self)@,
            old(self)@.len() > 0 ==> (r matches Some(v) && v@ == old(self)@) && final(self)@
                == old(self)@.skip(1),
    {
        let (out, nxt): (ErrorValue, Option<ErrorValue>) = match &self.rest {
            Option::None => {
                return Option::None;
            },
            Option::Some(v) => {
                let out = v.duplicate();
                let nxt = match &v.cause {
                    Option::None => Option::None,
                    Option::Some(b) => Option::Some(b.duplicate()),
                };
                (out, nxt)
            },
        };
        proof {
            crate::error::lemma_chain_tail(self.rest->Some_0);
        }
        self.rest = nxt;
        Option::Some(out)
    }

    /// How many values are left to yield.  Consumes the iterator, as
    /// counting walks it to its end.
    pub fn count(self) -> (r: usize)
        requires
            self@.len() <= usize::MAX,
        ensures
            r == self@.len(),
    {
        let mut k: usize = 0;
        let mut cur: Option<&ErrorValue> = match &self.rest {
            Option::None => Option::None,
            Option::Some(v) => Option::Some(v),
        };
        while cur.is_some()
            invariant
                k + remaining_ref_model(cur).len() == self@.len(),
                self@.len() <= usize::MAX,
            decreases remaining_ref_model(cur).len(),
        {
            let c = cur.unwrap();
            proof {
                crate::error::lemma_chain_nonempty(*c);
                crate::error::lemma_chain_tail(*c);
            }
            k = k + 1;
            cur = match &c.cause {
                Option::None => Option::None,
                Option::Some(b) => Option::Some(&**b),
            };
        }
        k
    }
}

/// The sequence still to be walked, seen through a borrowed cursor.
pub open spec fn remaining_ref_model(o: Option<&ErrorValue>) -> Seq<NodeModel> {
    match o {
        Option::None => Seq::empty(),
        Option::Some(v) => chain_model(*v),
    }
}

impl Error {
    /// A fresh chain iterator starting at this object's stored value: the
    /// value itself first, then each transitively nested cause.
    pub fn chain(&self) -> (c: Chain)
        ensures
            c@ == self@.chain,
    {
        Chain::new(&self.value)
    }
}

/// Chains are restartable and deterministic: two fresh iterators built from
/// the same starting value have identical sequences left to yield, so
/// walking a chain twice independently observes the same causes in the same
/// order.
pub proof fn lemma_chain_deterministic(first: Chain, second: Chain, start: ErrorValue)
    requires
        first@ == start@,
        second@ == start@,
    ensures
        first@ == second@,
{
}

/// The chain of an error-like value holds exactly one entry for the value
/// itself plus one for each transitively nested cause.
pub proof fn lemma_chain_length(v: ErrorValue)
    ensures
        chain_model(v).len() == 1 + cause_count(v),
    decreases v,
{
    match v.cause {
        Option::None => {},
        Option::Some(b) => {
            lemma_chain_length(*b);
        },
    }
}

} // verus!
