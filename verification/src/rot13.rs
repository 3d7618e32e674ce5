//! The ROT13 substitution cipher: a pure, total, self-inverse rewriting of
//! the 52 ASCII letters; every other byte value passes through unchanged.

use crate::transform::{Transform, TransformInPlace};
use vstd::prelude::*;

verus! {

/// What ROT13 does to a single byte: letters are rotated 13 places within
/// their case, everything else is left alone.
pub open spec fn rot13_byte_spec(b: u8) -> u8 {
    if 65 <= b && b <= 90 {
        (((b - 65) + 13) % 26 + 65) as u8
    } else if 97 <= b && b <= 122 {
        (((b - 97) + 13) % 26 + 97) as u8
    } else {
        b
    }
}

/// What ROT13 does to a whole buffer: every byte independently.
pub open spec fn rot13_seq(s: Seq<u8>) -> Seq<u8> {
    s.map_values(|b: u8| rot13_byte_spec(b))
}

/// Law: ROT13 is an involution on every byte buffer.
pub proof fn lemma_rot13_involution(s: Seq<u8>)
    ensures
        rot13_seq(rot13_seq(s)) == s,
{
    assert forall|i: int| 0 <= i < s.len() implies rot13_seq(rot13_seq(s))[i] == s[i] by {
        assert(rot13_byte_spec(rot13_byte_spec(s[i])) == s[i]);
    }
    assert(rot13_seq(rot13_seq(s)) =~= s);
}

/// Law: a byte outside the ASCII letter ranges is a fixed point of ROT13.
pub proof fn lemma_rot13_fixes_non_letters(b: u8)
    requires
        !(65 <= b && b <= 90),
        !(97 <= b && b <= 122),
    ensures
        rot13_byte_spec(b) == b,
{
}

/// Rotates one letter 13 places within the 26-letter range that begins at
/// `start_from` (the byte value of `A` or of `a`).
pub fn rot13_byte(b: u8, start_from: u8) -> (r: u8)
    requires
        start_from == 65 || start_from == 97,
        start_from <= b < start_from + 26,
    ensures
        r == rot13_byte_spec(b),
{
    start_from + ((b - start_from) + 13) % 26
}

/// Applies ROT13 to every byte of `s`, allocating a fresh buffer.
pub fn transform(s: &[u8]) -> (r: Vec<u8>)
    ensures
        r@ == rot13_seq(s@),
{
    let mut out: Vec<u8> = Vec::with_capacity(s.len());
    let mut i: usize = 0;
    while i < s.len()
        invariant
            i <= s@.len(),
            out@ == rot13_seq(s@.take(i as int)),
        decreases s@.len() - i,
    {
        let b = s[i];
        let c = if 65 <= b && b <= 90 {
            rot13_byte(b, 65)
        } else if 97 <= b && b <= 122 {
            rot13_byte(b, 97)
        } else {
            b
        };
        out.push(c);
        proof {
            assert(s@.take(i + 1) =~= s@.take(i as int).push(s@[i as int]));
            assert(rot13_seq(s@.take(i + 1)) =~= rot13_seq(s@.take(i as int)).push(
                rot13_byte_spec(s@[i as int]),
            ));
        }
        i = i + 1;
    }
    proof {
        assert(s@.take(s@.len() as int) =~= s@);
    }
    out
}

/// A ROT13 transformation stage.
pub struct Rot13;

impl Rot13 {
    /// Creates a ROT13 stage.
    pub fn new() -> (r: Rot13)
        ensures
            r == Rot13,
    {
        Rot13
    }
}

impl Transform for Rot13 {
    type Item = Vec<u8>;

    type Error = ();

    /// ROT13 is total: it succeeds on every input.
    open spec fn accepts(&self, data: Seq<u8>) -> bool {
        true
    }

    open spec fn output_of(&self, data: Seq<u8>) -> Seq<u8> {
        rot13_seq(data)
    }

    fn transform(&mut self, data: &[u8]) -> (r: Result<Vec<u8>, ()>) {
        Ok(transform(data))
    }
}

impl TransformInPlace for Rot13 {
    type Error = ();

    /// ROT13 is total: it succeeds on every buffer.
    open spec fn accepts_in_place(&self, data: Seq<u8>) -> bool {
        true
    }

    open spec fn in_place_output(&self, data: Seq<u8>) -> Seq<u8> {
        rot13_seq(data)
    }

    fn transform_in_place(&mut self, data: &mut [u8]) -> (r: Result<(), ()>) {
        let ghost orig: Seq<u8> = data@;
        let n = data.len();
        let mut i: usize = 0;
        while i < n
            invariant
                i <= n,
                n == data@.len(),
                data@.len() == orig.len(),
                forall|j: int| 0 <= j < i ==> data@[j] == rot13_byte_spec(orig[j]),
                forall|j: int| i <= j < n ==> data@[j] == orig[j],
            decreases n - i,
        {
            let b = data[i];
            let c = if 65 <= b && b <= 90 {
                rot13_byte(b, 65)
            } else if 97 <= b && b <= 122 {
                rot13_byte(b, 97)
            } else {
                b
            };
            data[i] = c;
            i = i + 1;
        }
        proof {
            assert(data@ =~= rot13_seq(orig));
        }
        Ok(())
    }
}

} // verus!
