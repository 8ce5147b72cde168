use vstd::prelude::*;

verus! {

/// Errors reported by the Flame components.
#[derive(Debug)]
pub enum FlameError {
    NotFound(String),
    Internal(String),
    Network(String),
    InvalidConfig(String),
    InvalidState(String),
    VersionMismatch(String),
}

/// The text an error carries.
pub open spec fn spec_message(e: FlameError) -> Seq<char> {
    match e {
        FlameError::NotFound(m) => m@,
        FlameError::Internal(m) => m@,
        FlameError::Network(m) => m@,
        FlameError::InvalidConfig(m) => m@,
        FlameError::InvalidState(m) => m@,
        FlameError::VersionMismatch(m) => m@,
    }
}

impl FlameError {
    /// The text the error carries.
    pub fn message(&self) -> (r: String)
        ensures
            r@ == spec_message(*self),
    {
        match self {
            FlameError::NotFound(m) => m.clone(),
            FlameError::Internal(m) => m.clone(),
            FlameError::Network(m) => m.clone(),
            FlameError::InvalidConfig(m) => m.clone(),
            FlameError::InvalidState(m) => m.clone(),
            FlameError::VersionMismatch(m) => m.clone(),
        }
    }
}

/// `<prefix><value><suffix>` as a new string.
pub fn framed(prefix: &str, value: &str, suffix: &str) -> (r: String)
    ensures
        r@ == prefix@ + value@ + suffix@,
{
    let mut m = prefix.to_string();
    m.append(value);
    m.append(suffix);
    m
}

/// The message for a session that holds nothing.
pub open spec fn session_not_found_message(s: Seq<char>) -> Seq<char> {
    "session <"@ + s + "> not found"@
}

/// The message for an object that is not there.
pub open spec fn object_not_found_message(id: Seq<char>) -> Seq<char> {
    "object <"@ + id + "> not found"@
}

/// `NotFound` for the session `s`.
pub fn session_not_found(s: &str) -> (r: FlameError)
    ensures
        r matches FlameError::NotFound(m) && m@ == session_not_found_message(s@),
{
    proof {
        reveal_strlit("session <");
        reveal_strlit("> not found");
    }
    FlameError::NotFound(framed("session <", s, "> not found"))
}

/// `NotFound` for the object `id`.
pub fn object_not_found(id: &str) -> (r: FlameError)
    ensures
        r matches FlameError::NotFound(m) && m@ == object_not_found_message(id@),
{
    proof {
        reveal_strlit("object <");
        reveal_strlit("> not found");
    }
    FlameError::NotFound(framed("object <", id, "> not found"))
}

/// A string built from a literal, with its content stated.
pub fn text(s: &str) -> (r: String)
    ensures
        r@ == s@,
{
    s.to_string()
}

} // verus!
