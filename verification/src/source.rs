//! The source contracts: a [`Source`] produces a borrowed view of the next
//! chunk of byte data, or fails; a [`SourceMut`] yields a mutable view as
//! well, so an in-place stage can work on the source's own storage.
//!
//! Buffer-backed sources (a slice, an owned vector) are *stable*: reading
//! does not change them, and every read returns the whole buffer.  A
//! line-oriented interactive source would refill an internal buffer on each
//! read instead; [`line_payload`] is the pure part of such a source: it
//! strips exactly one trailing line-terminator sequence from the buffered
//! line and keeps every other byte unchanged.

use vstd::prelude::*;

verus! {

/// A provider of the next chunk of byte data.
///
/// `contents` describes, as a specification function, the bytes the next
/// `read` hands out, and `source_ok` whether it succeeds; a *stable* source
/// additionally promises that reading leaves it unchanged, so that every
/// read returns the same contents.
pub trait Source: Sized {
    /// The borrowed shape of the produced data, viewed as bytes.
    type Data: View<V = Seq<u8>> + ?Sized;

    /// The error of a failed read.
    type Error;

    /// Whether the next read succeeds.
    spec fn source_ok(&self) -> bool;

    /// The bytes the next read produces when it succeeds.
    spec fn contents(&self) -> Seq<u8>;

    /// Whether reading leaves this kind of source unchanged.
    spec fn stable() -> bool;

    /// Produces a view of the next chunk, or fails.  The view is valid only
    /// until the next `read` on the same source.
    fn read(&mut self) -> (r: Result<&Self::Data, Self::Error>)
        ensures
            Self::stable() ==> *final(self) == *old(self),
            r is Ok <==> old(self).source_ok(),
            r matches Ok(d) ==> d@ == old(self).contents(),
    ;
}

/// A source whose storage can also be borrowed mutably, so an in-place
/// transformation can rewrite it without a copy.
pub trait SourceMut: Source {
    /// Produces a mutable view of the next chunk, or fails.  What the
    /// caller writes through the view becomes the source's new contents.
    fn read_mut(&mut self) -> (r: Result<&mut Self::Data, Self::Error>)
        ensures
            r is Ok <==> old(self).source_ok(),
            r matches Ok(d) ==> d@ == old(self).contents() && final(self).contents() == final(d)@,
    ;
}

impl Source for Vec<u8> {
    type Data = [u8];

    type Error = ();

    open spec fn source_ok(&self) -> bool {
        true
    }

    open spec fn contents(&self) -> Seq<u8> {
        self@
    }

    open spec fn stable() -> bool {
        true
    }

    fn read(&mut self) -> (r: Result<&[u8], ()>) {
        Ok(self.as_slice())
    }
}

impl SourceMut for Vec<u8> {
    fn read_mut(&mut self) -> (r: Result<&mut [u8], ()>) {
        Ok(self.as_mut_slice())
    }
}

/// Where the payload of a buffered input line ends: the length of `s` with
/// one trailing line-terminator sequence (`\r\n`, `\n` or `\r`) removed, or
/// the whole length when the line carries no terminator.
pub open spec fn payload_end(s: Seq<u8>) -> int {
    if s.len() >= 2 && s[s.len() - 2] == 13 && s[s.len() - 1] == 10 {
        s.len() - 2
    } else if s.len() >= 1 && (s[s.len() - 1] == 10 || s[s.len() - 1] == 13) {
        s.len() - 1
    } else {
        s.len() as int
    }
}

/// The payload of a buffered input line: the line with exactly one trailing
/// terminator sequence (`\r\n`, `\n` or `\r`) stripped, every remaining
/// byte unchanged; a line without a terminator is returned whole.  A
/// line-oriented interactive source reads a line into its internal buffer
/// and hands out exactly this.
pub fn line_payload(s: &[u8]) -> (r: Vec<u8>)
    ensures
        r@ == s@.take(payload_end(s@)),
{
    let n = s.len();
    let end: usize = if n >= 2 && s[n - 2] == 13 && s[n - 1] == 10 {
        n - 2
    } else if n >= 1 && (s[n - 1] == 10 || s[n - 1] == 13) {
        n - 1
    } else {
        n
    };
    let mut out: Vec<u8> = Vec::with_capacity(end);
    let mut k: usize = 0;
    while k < end
        invariant
            k <= end <= s@.len(),
            out@ == s@.take(k as int),
        decreases end - k,
    {
        out.push(s[k]);
        proof {
            assert(s@.take(k + 1) =~= s@.take(k as int).push(s@[k as int]));
        }
        k = k + 1;
    }
    out
}

impl<'a> Source for &'a [u8] {
    type Data = [u8];

    type Error = ();

    open spec fn source_ok(&self) -> bool {
        true
    }

    open spec fn contents(&self) -> Seq<u8> {
        self@
    }

    open spec fn stable() -> bool {
        true
    }

    fn read(&mut self) -> (r: Result<&[u8], ()>) {
        Ok(*self)
    }
}

} // verus!
