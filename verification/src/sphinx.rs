//! Fixed-size, multi-hop onion packet codec.
//!
//! Every packet on the wire is exactly [`PACKET_SIZE`] bytes: a zeroed
//! [`HEADER_SIZE`]-byte header reserved for future routing metadata and a
//! body of the remaining width. [`SphinxPacket::create`] normalises a
//! payload to the body width and encrypts it once per hop key, innermost
//! key first; [`SphinxPacket::peel`] removes exactly one layer and pads
//! the body back to the fixed width. After each layer is added, the
//! authenticated ciphertext is truncated back to the body width, so the
//! authentication tag is sacrificed for constant packet size — a known,
//! deliberate trade-off of this wire format, which means a later
//! authenticated peel of such a layer rejects the body.

use vstd::prelude::*;

use crate::bytes::{zero_vec, zeros};
use chacha20poly1305::aead::Aead;
use chacha20poly1305::aead::KeyInit;
use chacha20poly1305::ChaCha20Poly1305;
use chacha20poly1305::Nonce;

verus! {

/// Fixed wire size of every packet, real or cover.
pub const PACKET_SIZE: usize = 1024;

/// Width of the (zeroed, reserved) routing header.
pub const HEADER_SIZE: usize = 128;

/// Width of the packet body: what is left of the wire size after the
/// header.
pub const BODY_SIZE: usize = PACKET_SIZE - HEADER_SIZE;

/// The ciphertext-with-tag that ChaCha20-Poly1305 under an all-zero nonce
/// produces for this key and plaintext.
pub uninterp spec fn sealed_of(key: Seq<u8>, body: Seq<u8>) -> Seq<u8>;

/// What ChaCha20-Poly1305 under an all-zero nonce makes of this key and
/// ciphertext: the plaintext when the trailing tag verifies, nothing
/// otherwise.
pub uninterp spec fn opened_of(key: Seq<u8>, body: Seq<u8>) -> Option<Seq<u8>>;

/// Relies on chacha20poly1305's `encrypt` with a fixed all-zero nonce:
/// the result is a deterministic function of key and plaintext alone, one
/// ciphertext byte per plaintext byte plus the 16-byte tag, and for
/// bodies this short encryption cannot fail.
#[verifier::external_body]
fn seal_layer(key: &[u8; 32], body: &Vec<u8>) -> (r: Vec<u8>)
    requires
        body@.len() <= 65536,
    ensures
        r@ == sealed_of(key@, body@),
        r@.len() == body@.len() + 16,
{
    let cipher = ChaCha20Poly1305::new(key.into());
    let nonce = Nonce::from_slice(&[0u8; 12]);
    cipher.encrypt(nonce, body.as_slice()).expect("a short body always encrypts")
}

/// Relies on chacha20poly1305's `decrypt` with a fixed all-zero nonce:
/// authenticated decryption is a deterministic function of key and
/// ciphertext; it yields the plaintext, 16 bytes shorter than the body,
/// exactly when the trailing tag verifies, and rejects any body shorter
/// than the tag.
#[verifier::external_body]
fn open_layer(key: &[u8; 32], body: &Vec<u8>) -> (r: Option<Vec<u8>>)
    ensures
        r matches Option::Some(p) ==> opened_of(key@, body@) == Option::Some(p@) && p@.len() + 16
            == body@.len(),
        r is None ==> opened_of(key@, body@) is None,
        body@.len() < 16 ==> r is None,
{
    let cipher = ChaCha20Poly1305::new(key.into());
    let nonce = Nonce::from_slice(&[0u8; 12]);
    match cipher.decrypt(nonce, body.as_slice()) {
        Ok(p) => Some(p),
        Err(_) => None,
    }
}

/// A payload normalised to the fixed body width: copied up to
/// [`BODY_SIZE`] bytes, zero-padded if shorter, silently truncated if
/// longer.
pub open spec fn normalized_body(payload: Seq<u8>) -> Seq<u8> {
    if payload.len() >= BODY_SIZE {
        payload.take(BODY_SIZE as int)
    } else {
        payload + zeros((BODY_SIZE - payload.len()) as nat)
    }
}

/// A decrypted layer padded back to the fixed body width with zero bytes;
/// a longer body is left as it is.
pub open spec fn repadded_body(body: Seq<u8>) -> Seq<u8> {
    if body.len() >= BODY_SIZE {
        body
    } else {
        body + zeros((BODY_SIZE - body.len()) as nat)
    }
}

/// One onion layer over a full-width body: the authenticated ciphertext,
/// truncated back to the body width.
pub open spec fn sealed_layer_of(key: Seq<u8>, body: Seq<u8>) -> Seq<u8> {
    sealed_of(key, body).take(BODY_SIZE as int)
}

/// The body after wrapping in one layer per key; the first key of the
/// sequence forms the outermost layer, so the first hop peels it first.
pub open spec fn onion_of(keys: Seq<Seq<u8>>, body: Seq<u8>) -> Seq<u8>
    decreases keys.len(),
{
    if keys.len() == 0 {
        body
    } else {
        sealed_layer_of(keys.first(), onion_of(keys.drop_first(), body))
    }
}

/// A fixed-size onion packet: zeroed routing header plus layered body.
pub struct SphinxPacket {
    pub header: Vec<u8>,
    pub payload: Vec<u8>,
}

impl SphinxPacket {
    /// The fixed-size wire invariant: every well-formed packet is exactly
    /// [`PACKET_SIZE`] bytes, however it was produced.
    pub open spec fn wf(&self) -> bool {
        &&& self.header@.len() == HEADER_SIZE
        &&& self.payload@.len() == BODY_SIZE
    }

    /// Builds a multi-hop onion packet: the payload is normalised to the
    /// fixed body width, then wrapped once per hop key in reverse order,
    /// so the key of the last hop is applied first.
    pub fn create(payload: &[u8], hops_keys: &[[u8; 32]]) -> (packet: Self)
        ensures
            packet.wf(),
            packet.header@ == zeros(HEADER_SIZE as nat),
            packet.payload@ == onion_of(
                hops_keys@.map_values(|k: [u8; 32]| k@),
                normalized_body(payload@),
            ),
    {
        let ghost keys: Seq<Seq<u8>> = hops_keys@.map_values(|k: [u8; 32]| k@);
        let mut current = zero_vec(BODY_SIZE);
        let len = if payload.len() < BODY_SIZE {
            payload.len()
        } else {
            BODY_SIZE
        };
        let mut j: usize = 0;
        while j < len
            invariant
                len <= payload@.len(),
                len <= BODY_SIZE,
                j <= len,
                current@.len() == BODY_SIZE,
                forall|t: int| 0 <= t < j ==> current@[t] == payload@[t],
                forall|t: int| j <= t < BODY_SIZE ==> current@[t] == 0u8,
            decreases len - j,
        {
            let b = payload[j];
            current.set(j, b);
            j = j + 1;
        }
        proof {
            assert(current@ =~= normalized_body(payload@));
        }

        let mut i: usize = hops_keys.len();
        while i > 0
            invariant
                i <= hops_keys@.len(),
                keys == hops_keys@.map_values(|k: [u8; 32]| k@),
                current@.len() == BODY_SIZE,
                current@ == onion_of(keys.skip(i as int), normalized_body(payload@)),
            decreases i,
        {
            i = i - 1;
            let sealed = seal_layer(&hops_keys[i], &current);
            current = sealed;
            current.truncate(BODY_SIZE);
            proof {
                assert(keys.skip(i as int).first() == keys[i as int]);
                assert(keys.skip(i as int).drop_first() =~= keys.skip(i + 1));
            }
        }
        proof {
            assert(keys.skip(0) =~= keys);
        }

        SphinxPacket { header: zero_vec(HEADER_SIZE), payload: current }
    }

    /// Peels one onion layer in place. On success the body is replaced by
    /// the decrypted plaintext, zero-padded back to the fixed width; on
    /// failure (wrong key or corrupted body) the packet is left exactly
    /// as it was and the caller decides what a failed peel means.
    pub fn peel(&mut self, hop_key: &[u8; 32]) -> (ok: bool)
        ensures
            final(self).header == old(self).header,
            ok == (opened_of(hop_key@, old(self).payload@) is Some),
            ok ==> final(self).payload@ == repadded_body(
                opened_of(hop_key@, old(self).payload@).unwrap(),
            ),
            !ok ==> final(self).payload@ == old(self).payload@,
            old(self).wf() ==> final(self).wf(),
    {
        match open_layer(hop_key, &self.payload) {
            Option::Some(decrypted) => {
                let mut p = decrypted;
                let ghost plain: Seq<u8> = p@;
                while p.len() < BODY_SIZE
                    invariant
                        plain.len() <= p@.len(),
                        p@.len() <= vstd::math::max(plain.len() as int, BODY_SIZE as int),
                        p@ == plain + zeros((p@.len() - plain.len()) as nat),
                    decreases BODY_SIZE - p@.len(),
                {
                    p.push(0u8);
                    proof {
                        assert(p@ =~= plain + zeros((p@.len() - plain.len()) as nat));
                    }
                }
                proof {
                    assert(p@ =~= repadded_body(plain));
                }
                self.payload = p;
                true
            },
            Option::None => false,
        }
    }
}

} // verus!
