//! The wire frames and the doubling transform.
//!
//! The request frame is the fixed 6-byte payload `"proto!"`; the expected
//! response is the payload concatenated with a second copy of itself,
//! `"proto!proto!"`. Both sizes are compile-time constants known to both
//! peers; there are no headers, length prefixes or versioning.

use vstd::prelude::*;

verus! {

/// Length in bytes of a request frame.
pub const PROBE_LEN: usize = 6;

/// Length in bytes of a response frame: a doubled request frame.
pub const ECHO_LEN: usize = 12;

/// The doubled image of a byte sequence: the sequence followed by itself.
pub open spec fn double_spec(s: Seq<u8>) -> Seq<u8> {
    s + s
}

/// The fixed 6-byte request payload, the bytes of `"proto!"`.
pub open spec fn probe_seq() -> Seq<u8> {
    seq![112u8, 114u8, 111u8, 116u8, 111u8, 33u8]
}

/// The expected 12-byte response payload, the bytes of `"proto!proto!"`.
pub open spec fn echo_seq() -> Seq<u8> {
    seq![112u8, 114u8, 111u8, 116u8, 111u8, 33u8, 112u8, 114u8, 111u8, 116u8, 111u8, 33u8]
}

/// Builds the request frame the client sends.
pub fn probe_bytes() -> (r: Vec<u8>)
    ensures
        r@ == probe_seq(),
        r@.len() == PROBE_LEN,
{
    let mut v: Vec<u8> = Vec::new();
    v.push(112u8);
    v.push(114u8);
    v.push(111u8);
    v.push(116u8);
    v.push(111u8);
    v.push(33u8);
    proof {
        assert(v@ =~= probe_seq());
    }
    v
}

/// Builds the response frame a correctly behaving server sends back.
pub fn echo_bytes() -> (r: Vec<u8>)
    ensures
        r@ == echo_seq(),
        r@.len() == ECHO_LEN,
{
    let mut v: Vec<u8> = Vec::new();
    v.push(112u8);
    v.push(114u8);
    v.push(111u8);
    v.push(116u8);
    v.push(111u8);
    v.push(33u8);
    v.push(112u8);
    v.push(114u8);
    v.push(111u8);
    v.push(116u8);
    v.push(111u8);
    v.push(33u8);
    proof {
        assert(v@ =~= echo_seq());
    }
    v
}

/// Doubles the first `size` bytes of `payload`: the result is those bytes
/// followed by a second copy of themselves, so its length is `2 * size`.
/// Pure and stateless; `size` is the number of bytes actually received,
/// which may be less than the buffer's capacity.
pub fn transform(payload: Vec<u8>, size: usize) -> (r: Vec<u8>)
    requires
        size <= payload.len(),
    ensures
        r@ == double_spec(payload@.subrange(0, size as int)),
        r@.len() == 2 * size,
{
    let mut r: Vec<u8> = Vec::new();
    let mut i: usize = 0;
    while i < size
        invariant
            i <= size <= payload.len(),
            r@ == payload@.subrange(0, i as int),
        decreases size - i,
    {
        r.push(payload[i]);
        i = i + 1;
        proof {
            assert(r@ =~= payload@.subrange(0, i as int));
        }
    }
    let mut j: usize = 0;
    while j < size
        invariant
            j <= size <= payload.len(),
            r@ == payload@.subrange(0, size as int) + payload@.subrange(0, j as int),
        decreases size - j,
    {
        r.push(payload[j]);
        j = j + 1;
        proof {
            assert(r@ =~= payload@.subrange(0, size as int) + payload@.subrange(0, j as int));
        }
    }
    proof {
        assert(r@ =~= double_spec(payload@.subrange(0, size as int)));
    }
    r
}

/// Compares two byte vectors for equality of their contents.
pub fn bytes_eq(a: &Vec<u8>, b: &Vec<u8>) -> (r: bool)
    ensures
        r == (a@ == b@),
{
    if a.len() != b.len() {
        proof {
            assert(a@.len() != b@.len());
        }
        return false;
    }
    let mut i: usize = 0;
    while i < a.len()
        invariant
            i <= a.len(),
            a@.len() == b@.len(),
            forall|k: int| 0 <= k < i ==> a@[k] == b@[k],
        decreases a.len() - i,
    {
        if a[i] != b[i] {
            return false;
        }
        i = i + 1;
    }
    proof {
        assert(a@ =~= b@);
    }
    true
}

/// A correctly behaving server answers the request frame with exactly the
/// expected response frame: doubling the probe yields the echo.
pub proof fn lemma_probe_doubles_to_echo()
    ensures
        double_spec(probe_seq()) == echo_seq(),
{
    assert(double_spec(probe_seq()) =~= echo_seq());
}

} // verus!
