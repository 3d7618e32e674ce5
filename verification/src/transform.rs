//! The transformation contracts: a stage either consumes a borrowed byte
//! slice and produces a freshly owned buffer ([`Transform`]), or rewrites a
//! caller-owned buffer element-wise without changing its length
//! ([`TransformInPlace`]).  Every stage in this library is stateless, and the
//! contracts say so: a call leaves the stage itself unchanged.

use vstd::prelude::*;

verus! {

/// An allocating transformation stage.
///
/// A stage declares, as specification functions, on which inputs it succeeds
/// (`accepts`) and what bytes it then produces (`output_of`); `transform`
/// is bound to that description exactly: it returns `Ok` precisely on the
/// accepted inputs, and the item it returns carries exactly the described
/// bytes.  The output is always a freshly owned value, never a view into the
/// input.
pub trait Transform: Sized {
    /// The owned result of a successful transformation, viewed as bytes.
    type Item: View<V = Seq<u8>>;

    /// The stage-specific error of a failed transformation.
    type Error;

    /// On which inputs this stage succeeds.
    spec fn accepts(&self, data: Seq<u8>) -> bool;

    /// The bytes this stage produces on an accepted input.
    spec fn output_of(&self, data: Seq<u8>) -> Seq<u8>;

    /// Consumes a borrowed view of the input and produces a new owned
    /// buffer, or a stage-specific error.
    fn transform(&mut self, data: &[u8]) -> (r: Result<Self::Item, Self::Error>)
        ensures
            *final(self) == *old(self),
            r is Ok <==> old(self).accepts(data@),
            r matches Ok(item) ==> item@ == old(self).output_of(data@),
    ;
}

/// An in-place transformation stage.
///
/// The stage rewrites the buffer element-wise: the length is preserved on
/// every path, and on success the contents are exactly `in_place_output` of
/// the old contents.
pub trait TransformInPlace: Sized {
    /// The stage-specific error of a failed transformation.
    type Error;

    /// On which buffer contents this stage succeeds.
    spec fn accepts_in_place(&self, data: Seq<u8>) -> bool;

    /// The bytes an accepted buffer holds after the rewrite.
    spec fn in_place_output(&self, data: Seq<u8>) -> Seq<u8>;

    /// Rewrites `data` in place, preserving its length.
    fn transform_in_place(&mut self, data: &mut [u8]) -> (r: Result<(), Self::Error>)
        ensures
            *final(self) == *old(self),
            final(data)@.len() == old(data)@.len(),
            r is Ok <==> old(self).accepts_in_place(old(data)@),
            r is Ok ==> final(data)@ == old(self).in_place_output(old(data)@),
    ;
}

} // verus!
