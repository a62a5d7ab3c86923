//! Errors that surface in the JavaScript runtime.
use vstd::prelude::*;

verus! {

/// The JavaScript class that an error is thrown as.
#[derive(Clone, Copy, Debug, PartialEq, Eq, Structural)]
pub enum ErrorClass {
    /// `Error`
    Generic,
    /// `TypeError`
    Type,
    /// `RangeError`
    Range,
    /// `URIError`
    Uri,
}

/// An error with the class and the message that user code sees.
#[derive(Debug, PartialEq, Eq)]
pub struct JsError {
    pub class: ErrorClass,
    pub message: String,
}

/// The model of a [`JsError`].
pub struct JsErrorView {
    pub class: ErrorClass,
    pub message: Seq<char>,
}

impl View for JsError {
    type V = JsErrorView;

    open spec fn view(&self) -> JsErrorView {
        JsErrorView { class: self.class, message: self.message@ }
    }
}

/// A plain `Error` with the given message.
pub open spec fn generic_error(message: Seq<char>) -> JsErrorView {
    JsErrorView { class: ErrorClass::Generic, message }
}

/// A `TypeError` with the given message.
pub open spec fn type_error(message: Seq<char>) -> JsErrorView {
    JsErrorView { class: ErrorClass::Type, message }
}

/// A `RangeError` with the given message.
pub open spec fn range_error(message: Seq<char>) -> JsErrorView {
    JsErrorView { class: ErrorClass::Range, message }
}

/// A `URIError` with the given message.
pub open spec fn uri_error(message: Seq<char>) -> JsErrorView {
    JsErrorView { class: ErrorClass::Uri, message }
}

/// A `Result` whose payload and error are taken by their views.
pub open spec fn js_result_view<T: View>(r: Result<T, JsError>) -> Result<T::V, JsErrorView> {
    match r {
        Ok(v) => Ok(v@),
        Err(e) => Err(e@),
    }
}

impl JsError {
    /// A plain `Error`.
    pub fn generic(message: String) -> (r: JsError)
        ensures
            r@ == generic_error(message@),
    {
        JsError { class: ErrorClass::Generic, message }
    }

    /// A `TypeError`.
    pub fn type_error(message: String) -> (r: JsError)
        ensures
            r@ == type_error(message@),
    {
        JsError { class: ErrorClass::Type, message }
    }

    /// A `RangeError`.
    pub fn range_error(message: String) -> (r: JsError)
        ensures
            r@ == range_error(message@),
    {
        JsError { class: ErrorClass::Range, message }
    }

    /// A `URIError`.
    pub fn uri_error(message: String) -> (r: JsError)
        ensures
            r@ == uri_error(message@),
    {
        JsError { class: ErrorClass::Uri, message }
    }

    /// The message.
    pub fn to_string(&self) -> (r: String)
        ensures
            r@ == self@.message,
    {
        self.message.clone()
    }
}

/// An error has its class and its message, and the model of a result what it
/// holds.
pub proof fn law_models_of_errors<T: View>(e: JsError, message: Seq<char>, v: T)
    ensures
        e@.class == e.class,
        e@.message == e.message@,
        generic_error(message) == (JsErrorView { class: ErrorClass::Generic, message }),
        type_error(message) == (JsErrorView { class: ErrorClass::Type, message }),
        range_error(message) == (JsErrorView { class: ErrorClass::Range, message }),
        uri_error(message) == (JsErrorView { class: ErrorClass::Uri, message }),
        js_result_view(Ok::<T, JsError>(v)) == Ok::<T::V, JsErrorView>(v@),
        js_result_view(Err::<T, JsError>(e)) == Err::<T::V, JsErrorView>(e@),
{
}

} // verus!
