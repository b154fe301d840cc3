//! Response envelopes: module-call results, which are accessible only when
//! the call completed, and the rows of dynamic lists.
use crate::error::Error;
use crate::text::{chars_eq, chars_of};
use vstd::prelude::*;

verus! {

/// JSON values of `serde_json`, carried through without being looked into.
#[verifier::external_type_specification]
#[verifier::external_body]
pub struct ExJsonValue(serde_json::Value);

/// The `debugExitReason` of a module-call envelope, as far as the library
/// reads it: `null`, a string, or any other JSON value.
pub enum ExitReason {
    Null,
    Text(String),
    Other(serde_json::Value),
}

/// An exit reason that says the call completed: `null` or `"NONE"`.
pub open spec fn is_completion(reason: ExitReason) -> bool {
    match reason {
        ExitReason::Null => true,
        ExitReason::Text(s) => s@ == "NONE"@,
        ExitReason::Other(_) => false,
    }
}

/// What a module-call response holds: the exit reason of a call that did
/// not complete, and the result.
pub struct ResponseModel<T> {
    pub debug_exit_reason: Option<ExitReason>,
    pub result: T,
}

/// The response to a module call.
pub struct ModuleCallResponse<T> {
    debug_exit_reason: Option<ExitReason>,
    result: T,
}

impl<T> View for ModuleCallResponse<T> {
    type V = ResponseModel<T>;

    closed spec fn view(&self) -> ResponseModel<T> {
        ResponseModel { debug_exit_reason: self.debug_exit_reason, result: self.result }
    }
}

/// The response that an envelope with `reason` and `result` gives: the
/// reason is kept only when it does not say the call completed.
pub open spec fn spec_from_envelope<T>(reason: ExitReason, result: T) -> ResponseModel<T> {
    ResponseModel {
        debug_exit_reason: if is_completion(reason) {
            None
        } else {
            Some(reason)
        },
        result,
    }
}

/// The error of a response whose call did not complete.
pub open spec fn incomplete_error() -> Error {
    Error::UnexpectedResponse("module call reported a non-success debugExitReason")
}

/// What reading the result of a response gives.
pub open spec fn spec_access<T>(m: ResponseModel<T>) -> Result<T, Error> {
    match m.debug_exit_reason {
        None => Ok(m.result),
        Some(_) => Err(incomplete_error()),
    }
}

impl<T> ModuleCallResponse<T> {
    /// The response of an envelope whose `debugExitReason` is `reason` and
    /// whose `result` is `result`.
    pub fn from_envelope(reason: ExitReason, result: T) -> (r: ModuleCallResponse<T>)
        ensures
            r@ == spec_from_envelope(reason, result),
    {
        let completed = match &reason {
            ExitReason::Null => true,
            ExitReason::Text(s) => chars_eq(&chars_of(s.as_str()), &chars_of("NONE")),
            ExitReason::Other(_) => false,
        };
        ModuleCallResponse {
            debug_exit_reason: if completed {
                None
            } else {
                Some(reason)
            },
            result,
        }
    }

    /// The exit reason of a call that did not complete.
    pub fn debug_exit_reason(&self) -> (r: Option<&ExitReason>)
        ensures
            match r {
                Some(e) => self@.debug_exit_reason == Some(*e),
                None => self@.debug_exit_reason is None,
            },
    {
        match &self.debug_exit_reason {
            Some(e) => Some(e),
            None => None,
        }
    }

    /// The result, when the call completed.
    pub fn result(&self) -> (r: Result<&T, Error>)
        ensures
            match spec_access(self@) {
                Ok(t) => r matches Ok(u) && *u == t,
                Err(e) => r matches Err(f) && f == e,
            },
    {
        match self.ensure_completed() {
            Ok(()) => Ok(&self.result),
            Err(e) => Err(e),
        }
    }

    /// The result, by move, when the call completed.
    pub fn into_result(self) -> (r: Result<T, Error>)
        ensures
            r == spec_access(self@),
    {
        match self.ensure_completed() {
            Ok(()) => Ok(self.result),
            Err(e) => Err(e),
        }
    }

    fn ensure_completed(&self) -> (r: Result<(), Error>)
        ensures
            self@.debug_exit_reason is None ==> r is Ok,
            self@.debug_exit_reason is Some ==> r == Err::<(), Error>(incomplete_error()),
    {
        if self.debug_exit_reason.is_none() {
            Ok(())
        } else {
            Err(Error::UnexpectedResponse("module call reported a non-success debugExitReason"))
        }
    }
}

/// The result of a module call is accessible exactly when its envelope's
/// `debugExitReason` is `null` or `"NONE"`; then it is the envelope's
/// result, and otherwise reading it fails as an unexpected response.
pub proof fn lemma_result_accessible_iff_completed<T>(reason: ExitReason, result: T)
    ensures
        spec_access(spec_from_envelope(reason, result)) is Ok <==> is_completion(reason),
        is_completion(reason) ==> spec_access(spec_from_envelope(reason, result)) == Ok::<
            T,
            Error,
        >(result),
        !is_completion(reason) ==> spec_access(spec_from_envelope(reason, result)) == Err::<
            T,
            Error,
        >(incomplete_error()),
{
}

/// Only `null` and the exact string `"NONE"` mean that a call completed:
/// an envelope with any other string reason, or any other JSON value, keeps
/// that reason and refuses its result as an unexpected response, while
/// `null` and `"NONE"` hand the result out and keep no reason.
pub proof fn lemma_only_null_or_none_complete<T>(s: String, value: serde_json::Value, result: T)
    ensures
        s@ != "NONE"@ ==> spec_access(spec_from_envelope(ExitReason::Text(s), result)) == Err::<
            T,
            Error,
        >(Error::UnexpectedResponse("module call reported a non-success debugExitReason")),
        s@ != "NONE"@ ==> spec_from_envelope(ExitReason::Text(s), result).debug_exit_reason == Some(
            ExitReason::Text(s),
        ),
        s@ == "NONE"@ ==> spec_access(spec_from_envelope(ExitReason::Text(s), result)) == Ok::<
            T,
            Error,
        >(result),
        s@ == "NONE"@ ==> spec_from_envelope(ExitReason::Text(s), result).debug_exit_reason is None,
        spec_access(spec_from_envelope(ExitReason::Null, result)) == Ok::<T, Error>(result),
        spec_access(spec_from_envelope(ExitReason::Other(value), result)) == Err::<T, Error>(
            Error::UnexpectedResponse("module call reported a non-success debugExitReason"),
        ),
{
}

/// One row of a dynamic list: its field values.
pub struct DynamicListRow {
    field_values: Vec<serde_json::Value>,
}

impl View for DynamicListRow {
    type V = Seq<serde_json::Value>;

    closed spec fn view(&self) -> Seq<serde_json::Value> {
        self.field_values@
    }
}

impl DynamicListRow {
    /// A row with `field_values`.
    pub fn from_field_values(field_values: Vec<serde_json::Value>) -> (r: DynamicListRow)
        ensures
            r@ == field_values@,
    {
        DynamicListRow { field_values }
    }

    /// The field values, in order.
    pub fn field_values(&self) -> (r: &[serde_json::Value])
        ensures
            r@ == self@,
    {
        self.field_values.as_slice()
    }

    /// The field values, by move.
    pub fn into_field_values(self) -> (r: Vec<serde_json::Value>)
        ensures
            r@ == self@,
    {
        self.field_values
    }
}

/// The rows of a dynamic list.
pub struct DynamicListResponse {
    rows: Vec<DynamicListRow>,
}

impl View for DynamicListResponse {
    type V = Seq<Seq<serde_json::Value>>;

    closed spec fn view(&self) -> Seq<Seq<serde_json::Value>> {
        self.rows@.map_values(|r: DynamicListRow| r@)
    }
}

impl DynamicListResponse {
    /// A response with `rows`.
    pub fn from_rows(rows: Vec<DynamicListRow>) -> (r: DynamicListResponse)
        ensures
            r@ == rows@.map_values(|row: DynamicListRow| row@),
    {
        DynamicListResponse { rows }
    }

    /// The rows, in order.
    pub fn rows(&self) -> (r: &[DynamicListRow])
        ensures
            r@.map_values(|row: DynamicListRow| row@) == self@,
    {
        self.rows.as_slice()
    }

    /// The rows, by move.
    pub fn into_rows(self) -> (r: Vec<DynamicListRow>)
        ensures
            r@.map_values(|row: DynamicListRow| row@) == self@,
    {
        self.rows
    }
}

} // verus!
