//! The historical in-process decryption path: key post-processing and
//! AES-128 ECB decryption of fetched chunks. The default pipeline instead
//! hands decryption to the external muxer through the rewritten playlist;
//! this path is kept as the platform's alternative.
use vstd::prelude::*;

verus! {

use vstd::slice::slice_subrange;
use vstd::slice::slice_to_vec;
use vstd::string::StrSliceExecFns;

use crate::error::Error;
use crate::text::append_bytes;

/// The AES-128 cipher of the `aes` crate, opaque here; a value is created
/// once per video and used for every chunk.
#[verifier::external_type_specification]
#[verifier::external_body]
pub struct ExAes128(aes::Aes128);

/// The key a cipher value was initialized with.
pub uninterp spec fn aes128_key_of(cipher: aes::Aes128) -> Seq<u8>;

/// What AES-128 decryption of one 16-byte block under a 16-byte key
/// returns; a function of key and block alone.
pub uninterp spec fn aes128_block_dec(key: Seq<u8>, block: Seq<u8>) -> Seq<u8>;

/// Relies on aes::Aes128 (cipher::KeyInit::new_from_slice): initializes
/// the cipher from a key slice, failing exactly when the slice is not the
/// 16-byte AES-128 key size.
#[verifier::external_body]
fn aes128_new(key: &Vec<u8>) -> (r: Result<aes::Aes128, Error>)
    ensures
        r is Ok <==> key@.len() == 16,
        r is Ok ==> aes128_key_of(r->Ok_0) == key@,
{
    match <aes::Aes128 as aes::cipher::KeyInit>::new_from_slice(key.as_slice()) {
        Ok(c) => Ok(c),
        Err(e) => Err(Error::new(e.to_string())),
    }
}

/// Relies on aes::Aes128 (cipher::BlockDecrypt::decrypt_block): decrypts
/// one 16-byte block under the cipher's key; the result depends on the
/// key and the block alone.
#[verifier::external_body]
fn aes128_decrypt_block(cipher: &aes::Aes128, block: &Vec<u8>) -> (r: Vec<u8>)
    requires
        block@.len() == 16,
    ensures
        r@ == aes128_block_dec(aes128_key_of(*cipher), block@),
        r@.len() == 16,
{
    let mut b = aes::Block::clone_from_slice(block.as_slice());
    aes::cipher::BlockDecrypt::decrypt_block(cipher, &mut b);
    b.to_vec()
}

/// Length of the padding appended before decryption: up to the next
/// 16-byte boundary, a whole extra block when already aligned.
pub open spec fn pad_len(len: nat) -> nat {
    (16 - len % 16) as nat
}

/// The chunk as decrypted: the fetched bytes, extended by `pad_len` bytes
/// each holding that length.
pub open spec fn spec_zero_padded(data: Seq<u8>) -> Seq<u8> {
    data + Seq::new(pad_len(data.len()), |i: int| pad_len(data.len()) as u8)
}

/// AES-128 ECB decryption of a whole buffer, block by block. Only applied
/// to buffers whose length is a multiple of 16.
pub open spec fn spec_ecb_decrypt(key: Seq<u8>, data: Seq<u8>) -> Seq<u8>
    decreases data.len(),
{
    if data.len() < 16 {
        Seq::empty()
    } else {
        spec_ecb_decrypt(key, data.subrange(0, data.len() - 16)) + aes128_block_dec(
            key,
            data.subrange(data.len() - 16, data.len() as int),
        )
    }
}

/// Derives the in-process decryption key from fetched key material: the
/// first two bytes are dropped and the rest is reversed. (This does not
/// produce a standard AES key size from 16-byte material; the
/// better-attested pipeline writes the fetched key to disk for the muxer
/// instead and never calls this.)
pub fn get_decryption_key(encryption_key: Vec<u8>) -> (r: Vec<u8>)
    requires
        encryption_key@.len() >= 4,
    ensures
        r@.len() == encryption_key@.len() - 2,
        forall|k: int|
            0 <= k < r@.len() ==> r@[k] == encryption_key@[encryption_key@.len() - 1 - k],
{
    let mut r: Vec<u8> = Vec::new();
    let mut i: usize = encryption_key.len();
    while i > 2
        invariant
            2 <= i <= encryption_key@.len(),
            r@.len() == encryption_key@.len() - i,
            forall|k: int|
                0 <= k < r@.len() ==> r@[k] == encryption_key@[encryption_key@.len() - 1 - k],
        decreases i,
    {
        i -= 1;
        r.push(encryption_key[i]);
    }
    r
}

/// Pads the fetched chunk to a block boundary and decrypts it in place,
/// block by block, under the 16-byte key. A key of any other length is
/// rejected, with the chunk left in its padded form.
pub fn decrypt(bytes: &mut Vec<u8>, key: &Vec<u8>) -> (r: Result<(), Error>)
    ensures
        r is Ok <==> key@.len() == 16,
        r is Ok ==> final(bytes)@ == spec_ecb_decrypt(key@, spec_zero_padded(old(bytes)@)),
        r is Err ==> final(bytes)@ == spec_zero_padded(old(bytes)@),
{
    let extra: usize = 16 - (bytes.len() % 16);
    let mut j: usize = 0;
    while j < extra
        invariant
            j <= extra,
            extra == pad_len(old(bytes)@.len()),
            bytes@ == old(bytes)@ + Seq::new(j as nat, |i: int| extra as u8),
        decreases extra - j,
    {
        bytes.push(extra as u8);
        assert(bytes@ =~= old(bytes)@ + Seq::new((j + 1) as nat, |i: int| extra as u8));
        j += 1;
    }
    assert(bytes@ =~= spec_zero_padded(old(bytes)@));
    let cipher = match aes128_new(key) {
        Ok(c) => c,
        Err(e) => {
            return Err(e);
        },
    };
    let ghost padded = bytes@;
    let total = bytes.len();
    assert(total as int % 16 == 0) by {
        assert(padded.len() == old(bytes)@.len() + pad_len(old(bytes)@.len()));
    };
    let mut out: Vec<u8> = Vec::new();
    let mut done: usize = 0;
    while done < total
        invariant
            done <= total,
            done % 16 == 0,
            total % 16 == 0,
            total == bytes@.len(),
            bytes@ == padded,
            aes128_key_of(cipher) == key@,
            out@ == spec_ecb_decrypt(key@, padded.subrange(0, done as int)),
        decreases total - done,
    {
        let block = slice_to_vec(slice_subrange(bytes.as_slice(), done, done + 16));
        let dec = aes128_decrypt_block(&cipher, &block);
        append_bytes(&mut out, &dec);
        assert(padded.subrange(0, done + 16 as int).subrange(0, done as int) =~= padded.subrange(
            0,
            done as int,
        ));
        assert(padded.subrange(0, done + 16 as int).subrange(done as int, done + 16 as int)
            =~= padded.subrange(done as int, done + 16 as int));
        assert(out@ =~= spec_ecb_decrypt(key@, padded.subrange(0, done + 16 as int)));
        done += 16;
    }
    assert(padded.subrange(0, total as int) =~= padded);
    *bytes = out;
    Ok(())
}

} // verus!
