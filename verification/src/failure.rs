//! Failures that the tool server reports to its clients: a code, a message
//! and structured details.
use vstd::prelude::*;

verus! {

/// A detail value of a failure.
#[derive(Debug)]
pub enum Detail {
    Text(String),
    Flag(bool),
}

/// What a detail value holds.
pub enum DetailModel {
    Text(Seq<char>),
    Flag(bool),
}

impl View for Detail {
    type V = DetailModel;

    open spec fn view(&self) -> DetailModel {
        match self {
            Detail::Text(s) => DetailModel::Text(s@),
            Detail::Flag(b) => DetailModel::Flag(*b),
        }
    }
}

/// What a failure holds.
pub struct ToolFailureModel {
    pub code: Seq<char>,
    pub message: Seq<char>,
    pub details: Seq<(Seq<char>, DetailModel)>,
    pub delivery_uncertain: bool,
}

/// The models of named details, in order.
pub open spec fn detail_models(details: Seq<(String, Detail)>) -> Seq<(Seq<char>, DetailModel)> {
    details.map_values(|d: (String, Detail)| (d.0@, d.1@))
}

/// A failure reported to a client. A failure of a write request may leave
/// it open whether the request reached the server.
#[derive(Debug)]
pub struct ToolFailure {
    code: String,
    message: String,
    details: Vec<(String, Detail)>,
    delivery_uncertain: bool,
}

impl View for ToolFailure {
    type V = ToolFailureModel;

    closed spec fn view(&self) -> ToolFailureModel {
        ToolFailureModel {
            code: self.code@,
            message: self.message@,
            details: detail_models(self.details@),
            delivery_uncertain: self.delivery_uncertain,
        }
    }
}

impl ToolFailure {
    /// A failure with `code`, `message` and named `details`; a request that
    /// failed so was certainly not delivered.
    pub fn new(code: &str, message: &str, details: Vec<(String, Detail)>) -> (r: ToolFailure)
        ensures
            r@ == (ToolFailureModel {
                code: code@,
                message: message@,
                details: detail_models(details@),
                delivery_uncertain: false,
            }),
    {
        ToolFailure {
            code: String::from_str(code),
            message: String::from_str(message),
            details,
            delivery_uncertain: false,
        }
    }

    /// The same failure, for a request that may have reached the server
    /// although no valid answer came back.
    pub fn with_uncertain_delivery(self) -> (r: ToolFailure)
        ensures
            r@ == (ToolFailureModel { delivery_uncertain: true, ..self@ }),
    {
        ToolFailure { delivery_uncertain: true, ..self }
    }

    /// Whether the failed request may still have reached the server.
    pub fn mutation_delivery_is_uncertain(&self) -> (r: bool)
        ensures
            r == self@.delivery_uncertain,
    {
        self.delivery_uncertain
    }

    /// The code.
    pub fn code(&self) -> (r: &str)
        ensures
            r@ == self@.code,
    {
        self.code.as_str()
    }

    /// The message.
    pub fn message(&self) -> (r: &str)
        ensures
            r@ == self@.message,
    {
        self.message.as_str()
    }

    /// The named details, in order.
    pub fn details(&self) -> (r: &[(String, Detail)])
        ensures
            detail_models(r@) == self@.details,
    {
        self.details.as_slice()
    }
}

} // verus!
