//! The hashing function: a deterministic one-way mapping from a plaintext
//! token to the fixed-format storage key under which the token's record is
//! kept, so the store never holds the plaintext itself.
//!
//! The key is the decimal rendering of a 64-bit FNV-1a digest of the
//! plaintext's characters; both the digest and the rendering are defined by
//! spec functions and the executable code is verified against them.

use vstd::prelude::*;

verus! {

use crate::decimal::dec_seq_of;
use crate::decimal::is_dec_digit;
use crate::decimal::lemma_dec_seq_digits;
use crate::decimal::u64_to_dec_string;

/// Errors of the hashing function. Hashing is pure and total, so `hash`
/// never returns one; the enum keeps the `Result` shape of the interface.
#[derive(Debug)]
pub enum HashErr {
    HashFailed,
}

/// The FNV-1a offset basis for a 64-bit digest.
pub const FNV_OFFSET_BASIS: u64 = 0xcbf2_9ce4_8422_2325;

/// The FNV-1a prime for a 64-bit digest.
pub const FNV_PRIME: u64 = 0x0000_0100_0000_01b3;

/// The 64-bit FNV-1a digest of a sequence of characters: starting from the
/// offset basis, each character's scalar value is folded in by xor followed
/// by a wrapping multiplication with the FNV prime.
pub open spec fn fnv1a(s: Seq<char>) -> u64
    decreases s.len(),
{
    if s.len() == 0 {
        FNV_OFFSET_BASIS
    } else {
        vstd::wrapping::u64_specs::wrapping_mul(fnv1a(s.drop_last()) ^ (s.last() as u64), FNV_PRIME)
    }
}

/// The storage key derived from a plaintext token: the decimal rendering of
/// its FNV-1a digest.
pub open spec fn token_hash_seq(s: Seq<char>) -> Seq<char> {
    dec_seq_of(fnv1a(s) as nat)
}

/// Hash the given plaintext into its storage key.
///
/// The mapping is pure: it depends on the characters of `s` alone, so equal
/// plaintexts always map to the same key.
pub fn hash(s: String) -> (r: Result<String, HashErr>)
    ensures
        r matches Ok(h) && h@ == token_hash_seq(s@),
{
    let text = s.as_str();
    let n = text.unicode_len();
    let mut acc: u64 = FNV_OFFSET_BASIS;
    let mut i: usize = 0;
    while i < n
        invariant
            i <= n,
            n == text@.len(),
            text@ == s@,
            acc == fnv1a(s@.subrange(0, i as int)),
        decreases n - i,
    {
        let c = text.get_char(i);
        acc = (acc ^ ((c as u32) as u64)).wrapping_mul(FNV_PRIME);
        proof {
            assert(s@.subrange(0, i + 1).drop_last() =~= s@.subrange(0, i as int));
            assert(s@.subrange(0, i + 1).last() == c);
        }
        i = i + 1;
    }
    proof {
        assert(s@.subrange(0, n as int) =~= s@);
    }
    Ok(u64_to_dec_string(acc))
}

/// Hash privacy: the storage key derived from a plaintext token is never the
/// plaintext itself, for any plaintext holding at least one character that
/// is not a decimal digit — every derived key consists of digits alone.
pub proof fn lemma_hash_key_not_plaintext(token: Seq<char>)
    requires
        exists|i: int| 0 <= i < token.len() && !is_dec_digit(token[i]),
    ensures
        token_hash_seq(token) != token,
{
    let key = token_hash_seq(token);
    lemma_dec_seq_digits(fnv1a(token) as nat);
    let i = choose|i: int| 0 <= i < token.len() && !is_dec_digit(token[i]);
    if key == token {
        assert(key[i] == token[i]);
        assert(is_dec_digit(key[i]));
        assert(false);
    }
}

} // verus!
