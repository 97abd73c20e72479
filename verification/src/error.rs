//! Errors of the storage layer.

use vstd::prelude::*;
use vstd::string::*;

use crate::text::{decimal, push_decimal};

verus! {

/// A failure of the storage layer, with its message.
#[derive(Debug)]
pub struct StorageError(pub String);

impl StorageError {
    /// The error for a record that is not in its store: `"<what> <id> not
    /// found"`.
    pub fn not_found(what: &str, id: u64) -> (e: StorageError)
        ensures
            e.0@ == what@ + " "@ + decimal(id as nat) + " not found"@,
    {
        let mut msg = String::from_str(what);
        msg.append(" ");
        push_decimal(&mut msg, id);
        msg.append(" not found");
        StorageError(msg)
    }

    /// The message, for logging.
    pub fn message(&self) -> (s: String)
        ensures
            s@ == self.0@,
    {
        self.0.clone()
    }
}

} // verus!
