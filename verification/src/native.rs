//! The host-local data-protection stage: `encrypt` wraps a buffer into a
//! tagged, masked envelope and `decrypt` opens one.  The pair stands in for
//! a host-scoped platform protection service behind the same interface:
//! callers rely only on the round trip `decrypt(encrypt(x)) == x` on the
//! same host, and the envelope layout is not a portable wire format.  Like
//! the rest of this library it offers obfuscation, not confidentiality.

use crate::transform::Transform;
use vstd::prelude::*;

verus! {

/// An error indicating a protection or unprotection failure: the input was
/// not a well-formed envelope.  It carries no detail, as the cause is
/// outside the caller's control.
#[derive(Debug, PartialEq, Eq)]
pub struct EncryptionError;

/// The first tag byte of a protected envelope.
pub const TAG0: u8 = 0xC2;

/// The second tag byte of a protected envelope.
pub const TAG1: u8 = 0x71;

/// The byte mask applied to the payload of an envelope.
pub const MASK: u8 = 0x5A;

/// The envelope that protects `s`: the two tag bytes, then every byte of
/// `s` masked.
pub open spec fn protected_bytes(s: Seq<u8>) -> Seq<u8> {
    seq![TAG0, TAG1] + s.map_values(|b: u8| b ^ MASK)
}

/// Whether `s` is a well-formed protected envelope.
pub open spec fn is_protected(s: Seq<u8>) -> bool {
    s.len() >= 2 && s[0] == TAG0 && s[1] == TAG1
}

/// The payload a well-formed envelope protects.
pub open spec fn recovered_bytes(s: Seq<u8>) -> Seq<u8> {
    s.skip(2).map_values(|b: u8| b ^ MASK)
}

/// Law: unprotecting a protected buffer yields the original buffer, for
/// every byte buffer.
pub proof fn lemma_protect_round_trip(s: Seq<u8>)
    ensures
        is_protected(protected_bytes(s)),
        recovered_bytes(protected_bytes(s)) == s,
{
    let p = protected_bytes(s);
    assert(p.skip(2) =~= s.map_values(|b: u8| b ^ MASK));
    assert forall|i: int| 0 <= i < s.len() implies recovered_bytes(p)[i] == s[i] by {
        let b = s[i];
        assert((b ^ MASK) ^ MASK == b) by (bit_vector);
    }
    assert(recovered_bytes(p) =~= s);
}

/// Protects `data`: returns the tagged, masked envelope.  This never fails;
/// the `Result` shape matches a protection service that may.
pub fn encrypt(data: &[u8]) -> (r: Result<Vec<u8>, EncryptionError>)
    ensures
        r matches Ok(v) ==> v@ == protected_bytes(data@),
        r is Ok,
{
    let mut out: Vec<u8> = Vec::with_capacity(data.len());
    out.push(TAG0);
    out.push(TAG1);
    let n = data.len();
    let mut i: usize = 0;
    while i < n
        invariant
            i <= n,
            n == data@.len(),
            out@.len() == i + 2,
            out@[0] == TAG0 && out@[1] == TAG1,
            forall|j: int| 0 <= j < i ==> out@[j + 2] == data@[j] ^ MASK,
        decreases n - i,
    {
        out.push(data[i] ^ MASK);
        i = i + 1;
    }
    proof {
        assert(out@ =~= protected_bytes(data@));
    }
    Ok(out)
}

/// Unprotects `data`: opens a well-formed envelope, and fails with
/// [`EncryptionError`] exactly when `data` is not one.
pub fn decrypt(data: &[u8]) -> (r: Result<Vec<u8>, EncryptionError>)
    ensures
        r matches Ok(v) ==> v@ == recovered_bytes(data@),
        r is Ok <==> is_protected(data@),
{
    let n = data.len();
    if n < 2 || data[0] != TAG0 || data[1] != TAG1 {
        return Err(EncryptionError);
    }
    let mut out: Vec<u8> = Vec::with_capacity(n - 2);
    let mut i: usize = 2;
    while i < n
        invariant
            2 <= i <= n,
            n == data@.len(),
            out@.len() == i - 2,
            forall|j: int| 0 <= j < i - 2 ==> out@[j] == data@[j + 2] ^ MASK,
        decreases n - i,
    {
        out.push(data[i] ^ MASK);
        i = i + 1;
    }
    proof {
        assert(out@ =~= recovered_bytes(data@));
    }
    Ok(out)
}

/// The protecting transformation stage.
pub struct NativeEncrypt;

impl NativeEncrypt {
    /// Creates a protecting stage.
    pub fn new() -> (r: NativeEncrypt)
        ensures
            r == NativeEncrypt,
    {
        NativeEncrypt
    }
}

impl Transform for NativeEncrypt {
    type Item = Vec<u8>;

    type Error = EncryptionError;

    /// Protection succeeds on every input.
    open spec fn accepts(&self, data: Seq<u8>) -> bool {
        true
    }

    open spec fn output_of(&self, data: Seq<u8>) -> Seq<u8> {
        protected_bytes(data)
    }

    fn transform(&mut self, data: &[u8]) -> (r: Result<Vec<u8>, EncryptionError>) {
        encrypt(data)
    }
}

/// The unprotecting transformation stage.
pub struct NativeDecrypt;

impl NativeDecrypt {
    /// Creates an unprotecting stage.
    pub fn new() -> (r: NativeDecrypt)
        ensures
            r == NativeDecrypt,
    {
        NativeDecrypt
    }
}

impl Transform for NativeDecrypt {
    type Item = Vec<u8>;

    type Error = EncryptionError;

    /// Unprotection succeeds exactly on well-formed envelopes.
    open spec fn accepts(&self, data: Seq<u8>) -> bool {
        is_protected(data)
    }

    open spec fn output_of(&self, data: Seq<u8>) -> Seq<u8> {
        recovered_bytes(data)
    }

    fn transform(&mut self, data: &[u8]) -> (r: Result<Vec<u8>, EncryptionError>) {
        decrypt(data)
    }
}

} // verus!
