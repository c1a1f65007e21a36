//! What can go wrong, with a message for the caller.
use crate::text::{join2, join3};
use vstd::prelude::*;
use vstd::string::*;

verus! {

/// An error. Its message is a text of type `S`: a string, or a character sequence in contracts.
#[derive(Debug, Clone)]
pub enum EngineError<S = String> {
    Parse(S),
    Scenario(S),
    Command(S),
    Rules(S),
    Unimplemented(S),
}

/// An error in contracts.
pub type ErrV = EngineError<Seq<char>>;

impl View for EngineError {
    type V = ErrV;

    open spec fn view(&self) -> ErrV {
        match self {
            EngineError::Parse(s) => EngineError::Parse(s@),
            EngineError::Scenario(s) => EngineError::Scenario(s@),
            EngineError::Command(s) => EngineError::Command(s@),
            EngineError::Rules(s) => EngineError::Rules(s@),
            EngineError::Unimplemented(s) => EngineError::Unimplemented(s@),
        }
    }
}

/// A result with its error in contract form.
pub open spec fn res<T>(r: Result<T, EngineError>) -> Result<T, ErrV> {
    match r {
        Ok(v) => Ok(v),
        Err(e) => Err(e@),
    }
}

/// The message of an error as a user reads it.
pub open spec fn display_of(e: ErrV) -> Seq<char> {
    match e {
        EngineError::Parse(s) => "parse error: "@ + s,
        EngineError::Scenario(s) => "invalid scenario: "@ + s,
        EngineError::Command(s) => "invalid command: "@ + s,
        EngineError::Rules(s) => "rules config error: "@ + s,
        EngineError::Unimplemented(s) => "not yet implemented: "@ + s,
    }
}

impl EngineError {
    /// The error as a user reads it.
    pub fn display(&self) -> (r: String)
        ensures
            r@ == display_of(self@),
    {
        match self {
            EngineError::Parse(s) => join2("parse error: ", s.as_str()),
            EngineError::Scenario(s) => join2("invalid scenario: ", s.as_str()),
            EngineError::Command(s) => join2("invalid command: ", s.as_str()),
            EngineError::Rules(s) => join2("rules config error: ", s.as_str()),
            EngineError::Unimplemented(s) => join2("not yet implemented: ", s.as_str()),
        }
    }

    pub(crate) fn rules_text(s: String) -> (e: EngineError)
        ensures
            e@ == EngineError::Rules(s@),
    {
        EngineError::Rules(s)
    }
}

pub(crate) fn command(s: &str) -> (e: EngineError)
    ensures
        e@ == EngineError::Command(s@),
{
    EngineError::Command(s.to_owned())
}

pub(crate) fn command2(a: &str, b: &str) -> (e: EngineError)
    ensures
        e@ == EngineError::Command(a@ + b@),
{
    EngineError::Command(join2(a, b))
}

pub(crate) fn command3(a: &str, b: &str, c: &str) -> (e: EngineError)
    ensures
        e@ == EngineError::Command(a@ + b@ + c@),
{
    EngineError::Command(join3(a, b, c))
}

pub(crate) fn rules_error(s: &str) -> (e: EngineError)
    ensures
        e@ == EngineError::Rules(s@),
{
    EngineError::Rules(s.to_owned())
}

} // verus!
