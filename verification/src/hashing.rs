//! Digests at the library's edge.
//!
//! The two digest algorithms are outside computations whose results are
//! functions of the input alone; each is given an uninterpreted name, and
//! the hexadecimal rendering of a digest is verified code.

use vstd::prelude::*;
use crate::numfmt::hex_digit;
use crate::numfmt::hex_digit_exec;

verus! {

/// The MD5 digest of a string's characters: sixteen bytes determined by the
/// input alone.
pub uninterp spec fn md5_of(s: Seq<char>) -> Seq<u8>;

/// The SHA-256 digest of a string's characters: thirty-two bytes determined
/// by the input alone.
pub uninterp spec fn sha256_of(s: Seq<char>) -> Seq<u8>;

/// Relies on md5::compute: the digest is sixteen bytes and depends on the
/// input bytes alone.
#[verifier::external_body]
fn md5_bytes(s: &str) -> (r: Vec<u8>)
    ensures
        r@ == md5_of(s@),
        r@.len() == 16,
{
    md5::compute(s.as_bytes()).0.to_vec()
}

/// Relies on sha2::Sha256 through its Digest impl: the digest is thirty-two
/// bytes and depends on the input bytes alone.
#[verifier::external_body]
fn sha256_bytes(s: &str) -> (r: Vec<u8>)
    ensures
        r@ == sha256_of(s@),
        r@.len() == 32,
{
    let d = <sha2::Sha256 as sha2::Digest>::digest(s.as_bytes());
    d.as_slice().to_vec()
}

/// The lower-case hexadecimal rendering of a byte string: two digits per
/// byte, in order.
pub open spec fn bytes_hex(b: Seq<u8>) -> Seq<char>
    decreases b.len(),
{
    if b.len() == 0 {
        Seq::empty()
    } else {
        bytes_hex(b.drop_last()) + seq![
            hex_digit(b.last() as nat / 16),
            hex_digit(b.last() as nat % 16),
        ]
    }
}

/// Two hexadecimal digits per byte.
pub proof fn lemma_bytes_hex_len(b: Seq<u8>)
    ensures
        bytes_hex(b).len() == 2 * b.len(),
    decreases b.len(),
{
    if b.len() > 0 {
        lemma_bytes_hex_len(b.drop_last());
    }
}

/// Render a byte string in lower-case hexadecimal.
fn bytes_to_hex(b: &Vec<u8>) -> (s: String)
    ensures
        s@ == bytes_hex(b@),
{
    let mut s = String::new();
    let mut i: usize = 0;
    while i < b.len()
        invariant
            i <= b@.len(),
            s@ == bytes_hex(b@.take(i as int)),
        decreases b@.len() - i,
    {
        let byte = b[i];
        s.push(hex_digit_exec(byte as u64 / 16));
        s.push(hex_digit_exec(byte as u64 % 16));
        i = i + 1;
        proof {
            let t = b@.take(i as int);
            assert(t.drop_last() =~= b@.take(i - 1));
            assert(s@ =~= bytes_hex(t.drop_last()) + seq![
                hex_digit(t.last() as nat / 16),
                hex_digit(t.last() as nat % 16),
            ]);
        }
    }
    proof {
        assert(b@.take(b@.len() as int) =~= b@);
    }
    s
}

/// The MD5 digest of `s`, rendered in hexadecimal.
pub fn md5_hex(s: &str) -> (r: String)
    ensures
        r@ == bytes_hex(md5_of(s@)),
        r@.len() == 32,
{
    let d = md5_bytes(s);
    proof {
        lemma_bytes_hex_len(d@);
    }
    bytes_to_hex(&d)
}

/// The SHA-256 digest of `s`, rendered in hexadecimal.
pub fn sha256_hex(s: &str) -> (r: String)
    ensures
        r@ == bytes_hex(sha256_of(s@)),
        r@.len() == 64,
{
    let d = sha256_bytes(s);
    proof {
        lemma_bytes_hex_len(d@);
    }
    bytes_to_hex(&d)
}

} // verus!
