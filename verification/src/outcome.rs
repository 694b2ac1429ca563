//! How the body of a logical thread ended.

use vstd::prelude::*;

verus! {

/// The result of a logical thread's body: the value it produced, or the
/// payload of the panic that ended it. It is never partially populated.
#[derive(Debug, PartialEq, Eq)]
pub enum Outcome<T> {
    /// The body returned normally with this value.
    Completed(T),
    /// The body panicked; the message is the captured panic payload.
    Panicked(String),
}

} // verus!
