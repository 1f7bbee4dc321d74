//! The entropy digest and the draw it yields.
//!
//! A draw in [0, 100) is produced by hashing an entropy string — the
//! context's timestamp in nanoseconds, the acting account and a source
//! entity id, concatenated — through SHA-256, reading the first sixteen
//! digest bytes as a little-endian integer and reducing modulo 100.
//!
//! Every entropy component is visible to, and influenceable by, whoever
//! proposes the transaction, so the draw is pseudo-random rather than
//! unpredictability-hardened. That derivation is part of the protocol and
//! is kept as it is; callers must not treat it as adversarially secure.

use vstd::prelude::*;
use vstd::arithmetic::power2::{pow2, lemma_pow2_adds, lemma_pow2_strictly_increases, lemma2_to64};
use vstd::string::StrSliceExecFns;
use vstd::string::StringExecFns;
use vstd::utf8::encode_utf8;
use crate::ids::{spec_dec, dec_u64};

verus! {

/// The 32-byte SHA-256 digest of a byte sequence.
pub uninterp spec fn sha256_of(bytes: Seq<u8>) -> Seq<u8>;

/// Relies on sha2::Sha256::digest: the digest depends on the input bytes
/// alone and is always 32 bytes long.
#[verifier::external_body]
fn sha256(bytes: &Vec<u8>) -> (r: Vec<u8>)
    ensures
        r@ == sha256_of(bytes@),
        r@.len() == 32,
{
    <sha2::Sha256 as sha2::Digest>::digest(bytes.as_slice()).to_vec()
}

/// The little-endian value of a byte sequence.
pub open spec fn spec_le_bytes(s: Seq<u8>) -> nat
    decreases s.len(),
{
    if s.len() == 0 {
        0
    } else {
        (s.first() + 256 * spec_le_bytes(s.drop_first())) as nat
    }
}

/// A byte sequence of length `n` reads below 2^(8n).
proof fn lemma_le_bytes_bound(s: Seq<u8>)
    ensures
        spec_le_bytes(s) < pow2((8 * s.len()) as nat),
    decreases s.len(),
{
    if s.len() == 0 {
        assert(pow2(0) == 1) by {
            lemma2_to64();
        }
    } else {
        lemma_le_bytes_bound(s.drop_first());
        assert(pow2(8) == 256) by {
            lemma2_to64();
        }
        lemma_pow2_adds(8, (8 * (s.len() - 1)) as nat);
        assert(spec_le_bytes(s) <= 255 + 256 * (pow2((8 * (s.len() - 1)) as nat) - 1));
    }
}

/// The entropy preimage: decimal timestamp, account, entity id, as UTF-8.
pub open spec fn spec_entropy(nanos: u64, sender: Seq<char>, tag: Seq<char>) -> Seq<u8> {
    encode_utf8(spec_dec(nanos as nat) + sender + tag)
}

/// The draw a given entropy yields.
pub open spec fn spec_draw(nanos: u64, sender: Seq<char>, tag: Seq<char>) -> nat {
    spec_le_bytes(sha256_of(spec_entropy(nanos, sender, tag)).take(16)) % 100
}

/// Reads the first sixteen digest bytes little-endian, reduced modulo 100.
fn draw_from_digest(digest: &Vec<u8>) -> (r: u8)
    requires
        digest@.len() >= 16,
    ensures
        r as nat == spec_le_bytes(digest@.take(16)) % 100,
        r < 100,
{
    let ghost pre = digest@.take(16);
    let mut acc: u128 = 0;
    let mut i: usize = 16;
    while i > 0
        invariant
            i <= 16,
            digest@.len() >= 16,
            pre == digest@.take(16),
            acc == spec_le_bytes(pre.skip(i as int)),
        decreases i,
    {
        i = i - 1;
        let b = digest[i];
        proof {
            assert(pre.skip(i as int).drop_first() =~= pre.skip(i as int + 1));
            assert(pre.skip(i as int).first() == pre[i as int]);
            assert(pre[i as int] == digest@[i as int]);
            lemma_le_bytes_bound(pre.skip(i as int + 1));
            assert(pre.skip(i as int + 1).len() == 15 - i);
            if 0 < i && i < 15 {
                lemma_pow2_strictly_increases((8 * (15 - i)) as nat, 120);
            }
            if i == 15 {
                lemma_pow2_strictly_increases(0, 120);
            }
            assert(pow2(64) == 0x10000000000000000) by {
                lemma2_to64();
            }
            lemma_pow2_adds(64, 64);
            lemma_pow2_adds(120, 8);
            assert(pow2(8) == 256) by {
                lemma2_to64();
            }
            assert(acc < pow2(120));
            assert(256 * acc + b < pow2(128));
            assert(pow2(128) == 0x100000000000000000000000000000000);
        }
        acc = acc * 256 + (b as u128);
    }
    proof {
        assert(pre.skip(0) =~= pre);
    }
    let r = (acc % 100) as u8;
    r
}

/// Produces the draw for one selection.
///
/// The same timestamp, account and entity id always yield the same draw;
/// nothing else enters the entropy.
pub fn entropy_draw(nanos: u64, sender: &String, tag: &String) -> (r: u8)
    ensures
        r as nat == spec_draw(nanos, sender@, tag@),
        r < 100,
{
    let mut s = dec_u64(nanos);
    s.append(sender.as_str());
    s.append(tag.as_str());
    let bytes = s.as_str().as_bytes_vec();
    proof {
        assert(s@ == spec_dec(nanos as nat) + sender@ + tag@);
        assert(bytes@ == spec_entropy(nanos, sender@, tag@));
    }
    let digest = sha256(&bytes);
    draw_from_digest(&digest)
}

} // verus!
