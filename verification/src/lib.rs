//! A small byte-transformation pipeline library.
//!
//! A [`Source`](source::Source) produces a chunk of bytes; a
//! [`Transform`](transform::Transform) turns a byte slice into a freshly
//! owned buffer (or fails with a stage-specific error), and a
//! [`TransformInPlace`](transform::TransformInPlace) rewrites a buffer
//! element-wise without changing its length.  Concrete stages are a ROT13
//! cipher, Base64 encode/decode wrappers that compose with an inner stage,
//! and a host-local data-protection stage.

use vstd::prelude::*;

pub mod base64;
pub mod native;
pub mod rot13;
pub mod source;
pub mod transform;

pub use base64::{FromBase64, ToBase64};
pub use native::{NativeDecrypt, NativeEncrypt};
pub use rot13::Rot13;
pub use source::{Source, SourceMut};
pub use transform::{Transform, TransformInPlace};

verus! {

/// The caller-visible union of the two failure origins of a driven
/// pipeline: the source failed to produce data, or the stage failed to
/// transform it.  Keeping the two apart records which stage failed.
#[derive(Debug, PartialEq, Eq)]
pub enum ComposeError<SE, TE> {
    /// The source's read failed.
    Source(SE),
    /// The transformation stage failed.
    Transform(TE),
}

/// Applies one allocating transformation stage directly to an in-memory
/// buffer.  Returns `Ok` exactly on the inputs the stage accepts, and then
/// carries exactly the stage's described output bytes.
pub fn transform<T: Transform>(data: &[u8], t: T) -> (r: Result<T::Item, T::Error>)
    ensures
        r is Ok <==> t.accepts(data@),
        r matches Ok(item) ==> item@ == t.output_of(data@),
{
    let mut stage = t;
    stage.transform(data)
}

/// Reads once from a source, then applies an allocating transformation
/// stage to the produced chunk.  The two failure origins are reported
/// apart: a read failure as [`ComposeError::Source`], a stage failure as
/// [`ComposeError::Transform`].
pub fn transform_source<S, T>(src: S, t: T) -> (r: Result<
    T::Item,
    ComposeError<S::Error, T::Error>,
>) where S: Source<Data = [u8]>, T: Transform
    ensures
        r is Ok <==> src.source_ok() && t.accepts(src.contents()),
        r matches Ok(item) ==> item@ == t.output_of(src.contents()),
        r matches Err(ComposeError::Source(_)) <==> !src.source_ok(),
        r matches Err(ComposeError::Transform(_)) <==> src.source_ok() && !t.accepts(
            src.contents(),
        ),
{
    let mut s = src;
    let mut stage = t;
    match s.read() {
        Ok(d) => match stage.transform(d) {
            Ok(item) => Ok(item),
            Err(e) => Err(ComposeError::Transform(e)),
        },
        Err(e) => Err(ComposeError::Source(e)),
    }
}

/// Applies one in-place transformation stage directly to a caller-owned
/// mutable buffer.  The buffer's length is preserved on every path.
pub fn transform_in_place<T: TransformInPlace>(data: &mut [u8], t: T) -> (r: Result<
    (),
    T::Error,
>)
    ensures
        final(data)@.len() == old(data)@.len(),
        r is Ok <==> t.accepts_in_place(old(data)@),
        r is Ok ==> final(data)@ == t.in_place_output(old(data)@),
{
    let mut stage = t;
    stage.transform_in_place(data)
}

} // verus!
