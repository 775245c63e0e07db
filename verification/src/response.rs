//! The plain answer of an operation: whether it went well, and a message.

use vstd::prelude::*;

verus! {

/// An outcome with its message.
#[derive(Debug)]
pub struct Res {
    success: bool,
    message: String,
}

impl Res {
    /// Whether the outcome is a success.
    pub closed spec fn spec_is_success(&self) -> bool {
        self.success
    }

    /// The message.
    pub closed spec fn spec_message(&self) -> String {
        self.message
    }

    /// A success with the given message.
    pub fn success<T: core::fmt::Display>(message: T) -> (r: Self)
        ensures
            r.spec_is_success(),
            vstd::string::to_string_from_display_ensures::<T>(&message, r.spec_message()),
    {
        Res { success: true, message: message.to_string() }
    }

    /// A failure with the given message.
    pub fn fail<T: core::fmt::Display>(message: T) -> (r: Self)
        ensures
            !r.spec_is_success(),
            vstd::string::to_string_from_display_ensures::<T>(&message, r.spec_message()),
    {
        Res { success: false, message: message.to_string() }
    }

    /// Whether the outcome is a success.
    pub fn is_success(&self) -> (b: bool)
        ensures
            b == self.spec_is_success(),
    {
        self.success
    }

    /// The message.
    pub fn message(&self) -> (m: &String)
        ensures
            *m == self.spec_message(),
    {
        &self.message
    }
}

} // verus!
