use vstd::prelude::*;

verus! {

#[verifier::external_type_specification]
#[verifier::external_body]
pub struct ExInstant(std::time::Instant);

/// A value together with the moment it arrived.
#[derive(Debug)]
pub struct Timed<T> {
    pub timestamp: std::time::Instant,
    pub payload: T,
}

impl<T: Clone> Clone for Timed<T> {
    fn clone(&self) -> (r: Timed<T>)
        ensures
            r.timestamp == self.timestamp,
            cloned(self.payload, r.payload),
    {
        Timed { timestamp: self.timestamp, payload: self.payload.clone() }
    }
}

impl<T> Timed<T> {
    /// Transforms the payload, keeping the timestamp.
    pub fn map<U, F: FnOnce(T) -> U>(self, f: F) -> (r: Timed<U>)
        requires
            f.requires((self.payload,)),
        ensures
            r.timestamp == self.timestamp,
            f.ensures((self.payload,), r.payload),
    {
        Timed { timestamp: self.timestamp, payload: f(self.payload) }
    }
}

} // verus!
