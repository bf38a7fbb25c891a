//! Fixed-size padding of plaintext records.
//!
//! A padded buffer is `5 + max` bytes long: a one-byte format version (always
//! `1`), the payload length as a little-endian `u32`, the payload itself, and
//! random filler up to the fixed size, so that every sealed record has the
//! same length regardless of its payload.

use vstd::prelude::*;
use vstd::bytes::{spec_u32_from_le_bytes, spec_u32_to_le_bytes};
use vstd::bytes::{lemma_auto_spec_u32_to_from_le_bytes, u32_from_le_bytes, u32_to_le_bytes};
use vstd::pervasive::VecAdditionalExecFns;
use vstd::slice::{slice_subrange, slice_to_vec};

verus! {

/// The byte that marks the only padding layout this crate writes and reads.
pub const PAD_VERSION: u8 = 1;

/// What a well-formed padded buffer decodes to: `None` if the buffer is too
/// short, carries an unknown version byte, or claims more payload than it
/// holds; otherwise the payload bytes.
pub open spec fn unpad_spec(s: Seq<u8>) -> Option<Seq<u8>> {
    if s.len() < 5 {
        None
    } else if s[0] != PAD_VERSION {
        None
    } else {
        let size = spec_u32_from_le_bytes(s.subrange(1, 5)) as int;
        if s.len() < size + 5 {
            None
        } else {
            Some(s.subrange(5, 5 + size))
        }
    }
}

/// Whether `s` is a padded buffer of fixed size `max` carrying `payload`.
pub open spec fn padded_to(s: Seq<u8>, payload: Seq<u8>, max: int) -> bool {
    &&& s.len() == 5 + max
    &&& s[0] == PAD_VERSION
    &&& s.subrange(1, 5) == spec_u32_to_le_bytes(payload.len() as u32)
    &&& s.subrange(5, 5 + payload.len() as int) == payload
}

/// Recover the payload from a padded buffer.
pub fn unpad(input: Vec<u8>) -> (r: Option<Vec<u8>>)
    ensures
        match r {
            Some(b) => unpad_spec(input@) == Some(b@),
            None => unpad_spec(input@) is None,
        },
{
    let len = input.len();
    if len < 5 {
        return None;
    }
    if input[0] != PAD_VERSION {
        return None;
    }
    let size = u32_from_le_bytes(slice_subrange(input.as_slice(), 1, 5)) as usize;
    if len - 5 < size {
        return None;
    }
    let payload = slice_to_vec(slice_subrange(input.as_slice(), 5, 5 + size));
    Some(payload)
}

/// Pad a payload out to the fixed size `max`, filling the tail with random
/// bytes; fails exactly when the payload does not fit.
pub fn pad(input: &Vec<u8>, max: usize) -> (r: Option<Vec<u8>>)
    requires
        max + 5 <= usize::MAX,
        max <= u32::MAX,
    ensures
        match r {
            Some(b) => padded_to(b@, input@, max as int) && unpad_spec(b@) == Some(input@),
            None => input@.len() > max,
        },
{
    let size = input.len();
    if size > max {
        return None;
    }
    let mut buf = crate::crypto::random_bytes(5 + max);
    buf.set(0, PAD_VERSION);
    let size_bytes = u32_to_le_bytes(size as u32);
    buf.set(1, size_bytes[0]);
    buf.set(2, size_bytes[1]);
    buf.set(3, size_bytes[2]);
    buf.set(4, size_bytes[3]);
    proof {
        assert(buf@.subrange(1, 5) =~= spec_u32_to_le_bytes(size as u32));
    }
    let mut i: usize = 0;
    while i < size
        invariant
            i <= size,
            size == input@.len(),
            size <= max,
            max + 5 <= usize::MAX,
            buf@.len() == 5 + max,
            buf@[0] == PAD_VERSION,
            buf@.subrange(1, 5) == spec_u32_to_le_bytes(size as u32),
            forall|j: int| 0 <= j < i ==> buf@[5 + j] == input@[j],
        decreases size - i,
    {
        buf.set(5 + i, input[i]);
        proof {
            assert(buf@.subrange(1, 5) =~= spec_u32_to_le_bytes(size as u32));
        }
        i += 1;
    }
    proof {
        assert(buf@.subrange(5, 5 + input@.len() as int) =~= input@);
        lemma_padded_unpads(buf@, input@, max as int);
    }
    Some(buf)
}

/// Every buffer with the padded shape decodes back to its payload.
pub proof fn lemma_padded_unpads(s: Seq<u8>, payload: Seq<u8>, max: int)
    requires
        padded_to(s, payload, max),
        payload.len() <= max,
        payload.len() <= u32::MAX,
    ensures
        unpad_spec(s) == Some(payload),
{
    lemma_auto_spec_u32_to_from_le_bytes();
    let x = payload.len() as u32;
    assert(spec_u32_to_le_bytes(x).len() == 4);
    assert(spec_u32_from_le_bytes(spec_u32_to_le_bytes(x)) == x);
    assert(spec_u32_from_le_bytes(s.subrange(1, 5)) == x);
}

} // verus!
