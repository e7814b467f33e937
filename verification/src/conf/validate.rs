//! Validation: the rules a description must obey, and what is reported of
//! the first one that it breaks.

use vstd::prelude::*;
use vstd::string::*;

verus! {

/// A broken rule: where in the description it was found, and which it is.
#[derive(Debug)]
pub struct ValidationError {
    pub context: String,
    pub msg: String,
}

/// The texts of a [`ValidationError`].
pub struct ValidationErrorView {
    pub context: Seq<char>,
    pub msg: Seq<char>,
}

impl View for ValidationError {
    type V = ValidationErrorView;

    open spec fn view(&self) -> ValidationErrorView {
        ValidationErrorView { context: self.context@, msg: self.msg@ }
    }
}

impl ValidationError {
    /// The error that reports `message` for the place `context`.
    pub fn new(context: &str, message: &str) -> (e: ValidationError)
        ensures
            e@ == (ValidationErrorView { context: context@, msg: message@ }),
    {
        ValidationError { context: context.to_owned(), msg: message.to_owned() }
    }

    /// The error in one line, as it is shown to the user.
    pub fn to_string(&self) -> (line: String)
        ensures
            line@ == "Failed validation: "@ + self@.context + ": "@ + self@.msg,
    {
        let mut line = String::from_str("Failed validation: ");
        line.append(self.context.as_str());
        line.append(": ");
        line.append(self.msg.as_str());
        line
    }
}

/// A part of the description that can be held to its rules.
///
/// Validation stops at the first broken rule. It may change the value (the
/// numbering of partitions is its work), also where it fails.
pub trait Validate: View {
    /// The first broken rule of a value, `None` where it obeys them all.
    spec fn failure(v: Self::V) -> Option<ValidationErrorView>;

    /// The value as validation leaves it.
    spec fn outcome(v: Self::V) -> Self::V;

    /// Holds the value to its rules.
    fn validate(&mut self) -> (r: Result<(), ValidationError>)
        ensures
            final(self)@ == Self::outcome(old(self)@),
            match r {
                Ok(_) => Self::failure(old(self)@) is None,
                Err(e) => Self::failure(old(self)@) == Some(e@),
            },
    ;
}

} // verus!
