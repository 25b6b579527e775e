use vstd::prelude::*;
use std::any::Any;
use std::sync::Arc;

verus! {

/// A published message with its type erased, so that one registry can carry
/// messages of any type; a subscriber gets it back by naming the type.
///
/// The payload is a `std::sync::Arc<dyn Any + Send + Sync>`, a type that
/// Verus does not accept in a field ("dyn with more than one trait"), so the
/// struct is opaque to Verus: nothing is proved of what it holds.
#[verifier::external_body]
pub struct MessageWrapper {
    data: Arc<dyn Any + Send + Sync>,
}

impl Clone for MessageWrapper {
    /// Shares the payload (`Arc::clone`, which copies the pointer): the
    /// same wrapper value; the contents are not copied.
    #[verifier::external_body]
    fn clone(&self) -> (r: Self)
        ensures
            r == *self,
    {
        MessageWrapper { data: Arc::clone(&self.data) }
    }
}

impl MessageWrapper {
    /// Wraps `data` (`std::sync::Arc::new`, then erasing the type). Nothing
    /// is stated of the result: Verus cannot see inside it.
    #[verifier::external_body]
    pub fn new<T: Send + Sync + Clone + 'static>(data: T) -> MessageWrapper {
        MessageWrapper { data: Arc::new(data) }
    }

    /// The payload as a `T`, if it is one (`<dyn Any>::downcast_ref`). Which
    /// case comes back rests on the payload's run-time type, which Verus
    /// cannot see, so it is not stated.
    #[verifier::external_body]
    pub fn downcast<T: 'static>(&self) -> Option<&T> {
        self.data.downcast_ref::<T>()
    }
}

} // verus!
