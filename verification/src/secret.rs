//! Secret string wrapper that never prints credentials.

use vstd::prelude::*;

use crate::text::owned;

verus! {

/// Opaque API credential. Its printed forms are always redacted.
#[derive(Clone)]
pub struct SecretString {
    value: String,
}

impl View for SecretString {
    type V = Seq<char>;

    closed spec fn view(&self) -> Seq<char> {
        self.value@
    }
}

impl SecretString {
    pub fn new(value: &str) -> (s: Self)
        ensures
            s@ == value@,
    {
        SecretString { value: owned(value) }
    }

    /// Wraps an owned string.
    pub fn from_string(value: String) -> (s: Self)
        ensures
            s@ == value@,
    {
        SecretString { value }
    }

    pub fn is_empty(&self) -> (b: bool)
        ensures
            b == (self@.len() == 0),
    {
        self.value.as_str().is_empty()
    }

    /// Expose the raw secret only for constructing Authorization headers.
    pub fn expose_secret(&self) -> (s: &str)
        ensures
            s@ == self@,
    {
        self.value.as_str()
    }

    /// The debug form: never the secret.
    pub fn debug_string(&self) -> (s: String)
        ensures
            s@ == "SecretString([REDACTED])"@,
    {
        owned("SecretString([REDACTED])")
    }

    /// The display form: never the secret.
    pub fn display_string(&self) -> (s: String)
        ensures
            s@ == "[REDACTED]"@,
    {
        owned("[REDACTED]")
    }
}

impl Default for SecretString {
    fn default() -> (s: Self)
        ensures
            s@.len() == 0,
    {
        SecretString { value: String::new() }
    }
}

impl From<String> for SecretString {
    fn from(value: String) -> (s: Self) {
        SecretString { value }
    }
}

impl vstd::std_specs::convert::FromSpecImpl<String> for SecretString {
    open spec fn obeys_from_spec() -> bool {
        true
    }

    closed spec fn from_spec(v: String) -> Self {
        SecretString { value: v }
    }
}


} // verus!
