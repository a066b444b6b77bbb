use vstd::prelude::*;

verus! {

/// The single error type surfaced by the evaluation core.
///
/// The variants refine the message categories of the runtime error string:
/// wrong operand count, wrong value kind, unbound name, malformed special
/// form or pattern, no matching `syntax-rules` clause, an out-of-domain
/// argument (also used for integer overflow), an unhashable key, and an
/// internal state that sound construction never reaches.
#[derive(Debug, PartialEq, Eq)]
pub enum RuntimeError {
    Arity,
    Type,
    Unbound(Vec<char>),
    Syntax,
    MatchFailure,
    Domain,
    UnsupportedKey,
    Internal,
}

impl RuntimeError {
    /// A fixed description of the error category, for display by a shell.
    pub fn message(&self) -> (r: &'static str)
        ensures
            match self {
                RuntimeError::Arity => r@ == "wrong number of arguments"@,
                RuntimeError::Type => r@ == "wrong type of argument"@,
                RuntimeError::Unbound(_) => r@ == "unbound name"@,
                RuntimeError::Syntax => r@ == "malformed form"@,
                RuntimeError::MatchFailure => r@ == "failed to match any syntax patterns"@,
                RuntimeError::Domain => r@ == "argument out of domain"@,
                RuntimeError::UnsupportedKey => r@ == "hashing not supported for this key"@,
                RuntimeError::Internal => r@ == "internal evaluator fault"@,
            },
    {
        match self {
            RuntimeError::Arity => "wrong number of arguments",
            RuntimeError::Type => "wrong type of argument",
            RuntimeError::Unbound(_) => "unbound name",
            RuntimeError::Syntax => "malformed form",
            RuntimeError::MatchFailure => "failed to match any syntax patterns",
            RuntimeError::Domain => "argument out of domain",
            RuntimeError::UnsupportedKey => "hashing not supported for this key",
            RuntimeError::Internal => "internal evaluator fault",
        }
    }
}

} // verus!
