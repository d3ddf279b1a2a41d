//! The type-erased error object.
//!
//! A concrete error-like value is stored as an [`ErrorValue`]: the identity
//! of its concrete type as a numeric tag recorded at construction, its two
//! renderings, and its optional underlying cause.  Keeping the tag beside the
//! value plays the role of a dispatch table bound to the concrete type: a
//! downcast re-checks the tag before handing the value back.  [`Error`] adds
//! the captured source location and the optional backtrace.

use vstd::prelude::*;

verus! {

/// The mathematical model of one error-like value, without its causes.
pub ghost struct NodeModel {
    /// Identity of the concrete type the value was constructed from.
    pub type_id: u64,
    /// The user-facing rendering of the value.
    pub display: Seq<char>,
    /// The debug rendering of the value.
    pub debug: Seq<char>,
}

/// A type-erased error-like value: a type tag, its two renderings, and the
/// optional underlying cause.
pub struct ErrorValue {
    /// Identity of the concrete type, recorded when the value was erased.
    pub type_id: u64,
    /// The user-facing rendering of the value.
    pub display_text: String,
    /// The debug rendering of the value.
    pub debug_text: String,
    /// The underlying cause, if the value exposes one.
    pub cause: Option<Box<ErrorValue>>,
}

/// The model of a value's whole causal chain: the value itself first, then
/// each transitively nested cause, outermost first.
pub open spec fn chain_model(v: ErrorValue) -> Seq<NodeModel>
    decreases v,
{
    seq![
        (NodeModel { type_id: v.type_id, display: v.display_text@, debug: v.debug_text@ }),
    ] + opt_chain_model(v.cause)
}

/// The chain contributed by an optional cause link.
pub open spec fn opt_chain_model(o: Option<Box<ErrorValue>>) -> Seq<NodeModel>
    decreases o,
{
    match o {
        Option::None => Seq::empty(),
        Option::Some(b) => chain_model(*b),
    }
}

/// The number of transitively nested causes below a value.
pub open spec fn cause_count(v: ErrorValue) -> nat
    decreases v,
{
    match v.cause {
        Option::None => 0,
        Option::Some(b) => 1 + cause_count(*b),
    }
}

impl View for ErrorValue {
    type V = Seq<NodeModel>;

    open spec fn view(&self) -> Seq<NodeModel> {
        chain_model(*self)
    }
}

/// A chain always holds the value itself, so it is never empty.
pub proof fn lemma_chain_nonempty(v: ErrorValue)
    ensures
        chain_model(v).len() >= 1,
{
}

/// The chain below a value's cause link is the value's chain without its head.
pub proof fn lemma_chain_tail(v: ErrorValue)
    ensures
        opt_chain_model(v.cause) =~= chain_model(v).skip(1),
{
}

impl ErrorValue {
    /// A deep copy with the same model.
    pub fn duplicate(&self) -> (r: ErrorValue)
        ensures
            r@ == self@,
        decreases *self,
    {
        ErrorValue {
            type_id: self.type_id,
            display_text: self.display_text.clone(),
            debug_text: self.debug_text.clone(),
            cause: match &self.cause {
                Option::None => Option::None,
                Option::Some(b) => Option::Some(Box::new(b.duplicate())),
            },
        }
    }
}

/// A captured source position: file, line and column.
pub struct Location {
    pub file: String,
    pub line: u32,
    pub column: u32,
}

/// The outcome of a backtrace capture.
#[derive(Clone, Copy, Debug, PartialEq, Eq, Structural)]
pub enum BacktraceStatus {
    /// A backtrace was captured; its text is meaningful.
    Captured,
    /// Capture was disabled when the error was constructed.
    Disabled,
    /// The capture facility is not supported here.
    Unsupported,
}

/// A captured backtrace, as handed over by the capture facility: its status
/// and, when captured, its text.
pub struct Backtrace {
    pub status: BacktraceStatus,
    pub text: String,
}

/// The mathematical model of a whole error object.
pub ghost struct ErrorView {
    /// The causal chain: the stored value first, then each nested cause.
    pub chain: Seq<NodeModel>,
    /// The captured source position.
    pub file: Seq<char>,
    pub line: u32,
    pub column: u32,
    /// The captured backtrace.
    pub bt_status: BacktraceStatus,
    pub bt_text: Seq<char>,
}

/// The type-erased, owned error container: an error-like value, the source
/// location recorded at construction, and the optional backtrace.
pub struct Error {
    pub value: ErrorValue,
    pub location: Location,
    pub backtrace: Backtrace,
}

impl View for Error {
    type V = ErrorView;

    open spec fn view(&self) -> ErrorView {
        ErrorView {
            chain: chain_model(self.value),
            file: self.location.file@,
            line: self.location.line,
            column: self.location.column,
            bt_status: self.backtrace.status,
            bt_text: self.backtrace.text@,
        }
    }
}

impl Error {
    /// Wraps an error-like value together with the source position it was
    /// recognized at and the backtrace captured there.  Always succeeds.
    pub fn construct(value: ErrorValue, location: Location, backtrace: Backtrace) -> (e: Error)
        ensures
            e@ == (ErrorView {
                chain: value@,
                file: location.file@,
                line: location.line,
                column: location.column,
                bt_status: backtrace.status,
                bt_text: backtrace.text@,
            }),
    {
        Error { value, location, backtrace }
    }

    /// The stored value, through the error-like capability.
    pub fn as_error_ref(&self) -> (r: &ErrorValue)
        ensures
            r@ == self@.chain,
    {
        &self.value
    }

    /// The stored value, mutably.
    pub fn as_error_mut(&mut self) -> (r: &mut ErrorValue)
        ensures
            (*r)@ == old(self)@.chain,
            final(self)@.chain == (*final(r))@,
            final(self)@.file == old(self)@.file,
            final(self)@.line == old(self)@.line,
            final(self)@.column == old(self)@.column,
            final(self)@.bt_status == old(self)@.bt_status,
            final(self)@.bt_text == old(self)@.bt_text,
    {
        &mut self.value
    }

    /// The captured source position.
    pub fn location(&self) -> (r: &Location)
        ensures
            r.file@ == self@.file,
            r.line == self@.line,
            r.column == self@.column,
    {
        &self.location
    }

    /// The captured backtrace and its status.
    pub fn backtrace(&self) -> (r: &Backtrace)
        ensures
            r.status == self@.bt_status,
            r.text@ == self@.bt_text,
    {
        &self.backtrace
    }

    /// Attempts to recover the stored value as the concrete type whose tag is
    /// `type_id`.  Succeeds exactly when the tag recorded at construction
    /// matches; otherwise the whole error object is handed back unchanged, so
    /// a failed downcast loses nothing.
    pub fn downcast(self, type_id: u64) -> (r: Result<ErrorValue, Error>)
        ensures
            type_id == self@.chain[0].type_id ==> (r matches Ok(v) && v@ == self@.chain),
            type_id != self@.chain[0].type_id ==> (r matches Err(e) && e@ == self@),
    {
        if self.value.type_id == type_id {
            Ok(self.value)
        } else {
            Err(self)
        }
    }
}

} // verus!
