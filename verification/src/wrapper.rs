//! Wrapper adapters: shims that let a plain displayable value, a plain
//! debuggable-and-displayable value, or an already-erased error value be
//! treated uniformly as an error-like value.

use crate::error::ErrorValue;
use crate::error::NodeModel;
use crate::error::lemma_chain_tail;
use vstd::prelude::*;

verus! {

/// A plain value with a user-facing and a debug rendering: the stand-in for
/// any concrete value that is both displayable and debuggable.
pub struct Message {
    pub display_text: String,
    pub debug_text: String,
}

/// Adapter treating a plain displayable-and-debuggable value as an
/// error-like value with no cause.
pub struct MessageError(pub Message);

impl MessageError {
    /// The user-facing rendering: the wrapped value's own.
    pub fn fmt_display(&self) -> (r: String)
        ensures
            r@ == self.0.display_text@,
    {
        self.0.display_text.clone()
    }

    /// The debug rendering: the wrapped value's own.
    pub fn fmt_debug(&self) -> (r: String)
        ensures
            r@ == self.0.debug_text@,
    {
        self.0.debug_text.clone()
    }

    /// Erases the adapter into an error-like value with no cause, recording
    /// `type_id` as the identity of its concrete type.
    pub fn erase(self, type_id: u64) -> (v: ErrorValue)
        ensures
            v@ == seq![
                (NodeModel {
                    type_id,
                    display: self.0.display_text@,
                    debug: self.0.debug_text@,
                }),
            ],
    {
        let v = ErrorValue {
            type_id,
            display_text: self.0.display_text,
            debug_text: self.0.debug_text,
            cause: Option::None,
        };
        proof {
            assert(v@ =~= seq![
                (NodeModel { type_id, display: v.display_text@, debug: v.debug_text@ }),
            ]);
        }
        v
    }
}

/// Adapter treating a plain displayable value as an error-like value with no
/// cause, using the same rendering for its debug form.
pub struct DisplayError(pub String);

impl DisplayError {
    /// The user-facing rendering: the wrapped value's own.
    pub fn fmt_display(&self) -> (r: String)
        ensures
            r@ == self.0@,
    {
        self.0.clone()
    }

    /// The debug rendering: the same as the user-facing one.
    pub fn fmt_debug(&self) -> (r: String)
        ensures
            r@ == self.0@,
    {
        self.0.clone()
    }

    /// Erases the adapter into an error-like value with no cause and one
    /// rendering for both forms, recording `type_id` as the identity of its
    /// concrete type.
    pub fn erase(self, type_id: u64) -> (v: ErrorValue)
        ensures
            v@ == seq![(NodeModel { type_id, display: self.0@, debug: self.0@ })],
    {
        let text = self.0;
        let copy = text.clone();
        let v = ErrorValue {
            type_id,
            display_text: text,
            debug_text: copy,
            cause: Option::None,
        };
        proof {
            assert(v@ =~= seq![
                (NodeModel { type_id, display: v.display_text@, debug: v.debug_text@ }),
            ]);
        }
        v
    }
}

/// Adapter wrapping an already-erased error value, forwarding its renderings
/// and its cause unchanged.
pub struct BoxedError(pub Box<ErrorValue>);

impl BoxedError {
    /// The user-facing rendering: the wrapped value's own.
    pub fn fmt_display(&self) -> (r: String)
        ensures
            r@ == self.0@[0].display,
    {
        self.0.display_text.clone()
    }

    /// The debug rendering: the wrapped value's own.
    pub fn fmt_debug(&self) -> (r: String)
        ensures
            r@ == self.0@[0].debug,
    {
        self.0.debug_text.clone()
    }

    /// The wrapped value's underlying cause, forwarded unchanged.
    pub fn source(&self) -> (r: Option<&ErrorValue>)
        ensures
            (r is Some) == (self.0@.len() > 1),
            r matches Some(c) ==> c@ == self.0@.skip(1),
    {
        proof {
            lemma_chain_tail(*self.0);
            match &self.0.cause {
                Option::None => {},
                Option::Some(b) => {
                    crate::error::lemma_chain_nonempty(**b);
                },
            }
        }
        match &self.0.cause {
            Option::None => Option::None,
            Option::Some(b) => Option::Some(&**b),
        }
    }

    /// Erases the adapter into an error-like value: the wrapped value with
    /// `type_id` recorded as the identity of the adapter's concrete type,
    /// renderings and causes kept as they were.
    pub fn erase(self, type_id: u64) -> (v: ErrorValue)
        ensures
            v@ == self.0@.update(
                0,
                (NodeModel {
                    type_id,
                    display: self.0@[0].display,
                    debug: self.0@[0].debug,
                }),
            ),
    {
        let mut inner: ErrorValue = *self.0;
        proof {
            lemma_chain_tail(inner);
        }
        let ghost before = inner;
        inner.type_id = type_id;
        proof {
            lemma_chain_tail(inner);
            assert(inner@ =~= before@.update(
                0,
                (NodeModel {
                    type_id,
                    display: before@[0].display,
                    debug: before@[0].debug,
                }),
            ));
        }
        inner
    }
}

} // verus!
