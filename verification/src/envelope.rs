//! The on-disk byte layout of a store file.
//!
//! A store file is one buffer with fixed offsets and no header: bytes
//! `[0, 16)` are the key-derivation salt, bytes `[16, 28)` the AEAD nonce,
//! and everything from byte 28 on is the ciphertext with its trailing
//! authentication tag.

use vstd::prelude::*;

verus! {

/// Length of the key-derivation salt at the front of a store file.
pub const SALT_LEN: usize = 16;

/// Length of the AEAD nonce that follows the salt.
pub const NONCE_LEN: usize = 12;

/// Offset at which the ciphertext begins.
pub const CIPHERTEXT_START: usize = 28;

/// Copies `src[from..to]` into a fresh buffer.
fn copy_range(src: &Vec<u8>, from: usize, to: usize) -> (r: Vec<u8>)
    requires
        from <= to <= src@.len(),
    ensures
        r@ == src@.subrange(from as int, to as int),
{
    let mut out: Vec<u8> = Vec::new();
    let mut i: usize = from;
    while i < to
        invariant
            from <= i <= to <= src@.len(),
            out@ == src@.subrange(from as int, i as int),
        decreases to - i,
    {
        out.push(src[i]);
        proof {
            assert(out@ =~= src@.subrange(from as int, i + 1));
        }
        i += 1;
    }
    out
}

/// Appends all of `src` to `out`.
fn extend_bytes(out: &mut Vec<u8>, src: &Vec<u8>)
    ensures
        final(out)@ == old(out)@ + src@,
{
    let mut i: usize = 0;
    while i < src.len()
        invariant
            0 <= i <= src@.len(),
            out@ == old(out)@ + src@.subrange(0, i as int),
        decreases src@.len() - i,
    {
        out.push(src[i]);
        proof {
            assert(out@ =~= old(out)@ + src@.subrange(0, i + 1));
        }
        i += 1;
    }
    proof {
        assert(out@ =~= old(out)@ + src@);
    }
}

/// Packs salt, nonce and ciphertext into one store-file buffer.
pub fn pack_envelope(salt: &Vec<u8>, nonce: &Vec<u8>, ciphertext: &Vec<u8>) -> (r: Vec<u8>)
    requires
        salt@.len() == SALT_LEN,
        nonce@.len() == NONCE_LEN,
    ensures
        r@ == salt@ + nonce@ + ciphertext@,
        r@.len() == CIPHERTEXT_START + ciphertext@.len(),
{
    let mut out: Vec<u8> = Vec::new();
    extend_bytes(&mut out, salt);
    extend_bytes(&mut out, nonce);
    extend_bytes(&mut out, ciphertext);
    proof {
        assert(out@ =~= salt@ + nonce@ + ciphertext@);
    }
    out
}

/// Splits a store-file buffer into salt, nonce and ciphertext at the fixed
/// offsets; refuses a buffer too short to hold salt and nonce.
pub fn unpack_envelope(file: &Vec<u8>) -> (r: Option<(Vec<u8>, Vec<u8>, Vec<u8>)>)
    ensures
        match r {
            Some(parts) => {
                &&& file@.len() >= CIPHERTEXT_START
                &&& parts.0@ == file@.subrange(0, SALT_LEN as int)
                &&& parts.1@ == file@.subrange(SALT_LEN as int, CIPHERTEXT_START as int)
                &&& parts.2@ == file@.subrange(CIPHERTEXT_START as int, file@.len() as int)
            },
            None => file@.len() < CIPHERTEXT_START,
        },
{
    if file.len() < CIPHERTEXT_START {
        return None;
    }
    let salt = copy_range(file, 0, SALT_LEN);
    let nonce = copy_range(file, SALT_LEN, CIPHERTEXT_START);
    let ciphertext = copy_range(file, CIPHERTEXT_START, file.len());
    Some((salt, nonce, ciphertext))
}

/// Unpacking a packed envelope recovers exactly the salt, nonce and
/// ciphertext it was packed from.
pub proof fn lemma_envelope_round_trip(salt: Seq<u8>, nonce: Seq<u8>, ciphertext: Seq<u8>)
    requires
        salt.len() == SALT_LEN,
        nonce.len() == NONCE_LEN,
    ensures
        (salt + nonce + ciphertext).subrange(0, SALT_LEN as int) == salt,
        (salt + nonce + ciphertext).subrange(SALT_LEN as int, CIPHERTEXT_START as int) == nonce,
        (salt + nonce + ciphertext).subrange(
            CIPHERTEXT_START as int,
            (salt + nonce + ciphertext).len() as int,
        ) == ciphertext,
{
    let whole = salt + nonce + ciphertext;
    assert(whole.subrange(0, SALT_LEN as int) =~= salt);
    assert(whole.subrange(SALT_LEN as int, CIPHERTEXT_START as int) =~= nonce);
    assert(whole.subrange(CIPHERTEXT_START as int, whole.len() as int) =~= ciphertext);
}

} // verus!
