//! The seed ↔ mnemonic codec: a 32-byte seed is rewritten as 24 word
//! indices of 11 bits each (little-endian bit order), and a 25th index —
//! an 11-bit checksum drawn from the seed's truncated 512-bit digest — is
//! appended. Decoding reverses the digits and rejects a bad checksum.
//!
//! The vocabulary that maps an index to a printable word is a collaborator
//! of this crate; the codec itself is exact over indices.

use vstd::prelude::*;

use vstd::arithmetic::div_mod::{
    lemma_div_multiples_vanish, lemma_fundamental_div_mod, lemma_fundamental_div_mod_converse,
    lemma_small_mod,
};
use vstd::arithmetic::power2::{lemma2_to64, lemma_pow2_adds, lemma_pow2_pos, pow2};

use crate::crypto::sha512_256_of;
use crate::errors::CryptoError;

verus! {

/// How many word indices carry seed data.
pub const DATA_WORDS: usize = 24;

/// How many word indices a full mnemonic has, checksum included.
pub const MNEMONIC_WORDS: usize = 25;

/// How many distinct words the vocabulary has: one per 11-bit value.
pub const WORDLIST_SIZE: u16 = 2048;

/// The value of a byte sequence read as one little-endian number.
pub open spec fn le_bytes_to_nat(s: Seq<u8>) -> nat
    decreases s.len(),
{
    if s.len() == 0 {
        0
    } else {
        s[0] as nat + 256 * le_bytes_to_nat(s.skip(1))
    }
}

/// The value of a word-index sequence read as one little-endian base-2048
/// number.
pub open spec fn le_words_to_nat(s: Seq<u16>) -> nat
    decreases s.len(),
{
    if s.len() == 0 {
        0
    } else {
        s[0] as nat + 2048 * le_words_to_nat(s.skip(1))
    }
}

/// The canonical `len`-byte little-endian form of `n`.
pub open spec fn nat_to_le_bytes(n: nat, len: nat) -> Seq<u8>
    decreases len,
{
    if len == 0 {
        Seq::empty()
    } else {
        seq![(n % 256) as u8] + nat_to_le_bytes(n / 256, (len - 1) as nat)
    }
}

/// The 11-bit checksum of a seed: the low 11 bits, little-endian, of its
/// truncated 512-bit digest.
pub open spec fn checksum_word(seed: Seq<u8>) -> nat {
    (sha512_256_of(seed)[0] as nat) + 256 * ((sha512_256_of(seed)[1] as nat) % 8)
}

/// The seed a mnemonic's 24 data words decode to: their base-2048 value,
/// reduced to 256 bits and written as 32 little-endian bytes.
pub open spec fn decoded_seed(words: Seq<u16>) -> Seq<u8> {
    nat_to_le_bytes(le_words_to_nat(words.take(24)) % pow2(256), 32)
}

pub proof fn lemma_pow2_le(e1: nat, e2: nat)
    requires
        e1 <= e2,
    ensures
        pow2(e1) <= pow2(e2),
{
    lemma_pow2_adds(e1, (e2 - e1) as nat);
    lemma_pow2_pos((e2 - e1) as nat);
    lemma_pow2_pos(e1);
    assert(pow2(e1) * 1 <= pow2(e1) * pow2((e2 - e1) as nat)) by (nonlinear_arith)
        requires
            pow2((e2 - e1) as nat) >= 1,
            pow2(e1) >= 0,
    ;
}

/// A quotient is bounded by the cofactor of any bound on the dividend.
pub proof fn lemma_div_bound(x: nat, base: nat, k: nat)
    requires
        0 < base,
        x < base * k,
    ensures
        x / base < k,
{
    lemma_fundamental_div_mod(x as int, base as int);
    assert(x / base < k) by (nonlinear_arith)
        requires
            x == base * (x / base) + x % base,
            x < base * k,
            0 <= x % base,
            0 <= x / base,
            0 < base,
    ;
}

pub proof fn lemma_le_bytes_bound(s: Seq<u8>)
    ensures
        le_bytes_to_nat(s) < pow2(8 * s.len()),
    decreases s.len(),
{
    if s.len() == 0 {
        lemma2_to64();
    } else {
        lemma_le_bytes_bound(s.skip(1));
        lemma_pow2_adds(8, (8 * s.len() - 8) as nat);
        lemma2_to64();
        let rest = le_bytes_to_nat(s.skip(1));
        let p = pow2((8 * s.len() - 8) as nat);
        assert(s[0] as nat + 256 * rest < 256 * (rest + 1));
        assert(256 * (rest + 1) <= 256 * p) by (nonlinear_arith)
            requires
                rest + 1 <= p,
        ;
    }
}

pub proof fn lemma_le_bytes_push(s: Seq<u8>, x: u8)
    ensures
        le_bytes_to_nat(s.push(x)) == le_bytes_to_nat(s) + x * pow2(8 * s.len()),
    decreases s.len(),
{
    lemma2_to64();
    if s.len() == 0 {
        assert(s.push(x).skip(1) =~= Seq::<u8>::empty());
        assert(s.push(x)[0] == x);
        assert(s =~= Seq::<u8>::empty());
        assert(le_bytes_to_nat(Seq::<u8>::empty()) == 0);
        assert(le_bytes_to_nat(s.push(x)) == x as nat + 256 * 0);
        assert(pow2(8 * s.len()) == 1);
        vstd::arithmetic::mul::lemma_mul_basics(x as int);
        assert(le_bytes_to_nat(s.push(x)) == le_bytes_to_nat(s) + x * pow2(8 * s.len()));
    } else {
        assert(s.push(x).skip(1) =~= s.skip(1).push(x));
        lemma_le_bytes_push(s.skip(1), x);
        lemma_pow2_adds(8, (8 * s.len() - 8) as nat);
        let rest = le_bytes_to_nat(s.skip(1));
        let p = pow2((8 * s.len() - 8) as nat);
        assert(le_bytes_to_nat(s.push(x)) == s[0] as nat + 256 * le_bytes_to_nat(
            s.skip(1).push(x),
        ));
        assert(le_bytes_to_nat(s.skip(1).push(x)) == rest + x * p);
        assert(256 * (rest + x * p) == 256 * rest + x * (256 * p)) by (nonlinear_arith);
        assert(256 * p == pow2(8 * s.len()));
        assert(le_bytes_to_nat(s) == s[0] as nat + 256 * rest);
        assert(le_bytes_to_nat(s.push(x)) == le_bytes_to_nat(s) + x * pow2(8 * s.len()));
    }
}

pub proof fn lemma_le_words_push(s: Seq<u16>, x: u16)
    ensures
        le_words_to_nat(s.push(x)) == le_words_to_nat(s) + x * pow2(11 * s.len()),
    decreases s.len(),
{
    lemma2_to64();
    if s.len() == 0 {
        assert(s.push(x).skip(1) =~= Seq::<u16>::empty());
        assert(s.push(x)[0] == x);
        assert(s =~= Seq::<u16>::empty());
        assert(le_words_to_nat(Seq::<u16>::empty()) == 0);
        assert(le_words_to_nat(s.push(x)) == x as nat + 2048 * 0);
        assert(pow2(11 * s.len()) == 1);
        vstd::arithmetic::mul::lemma_mul_basics(x as int);
        assert(le_words_to_nat(s.push(x)) == le_words_to_nat(s) + x * pow2(11 * s.len()));
    } else {
        assert(s.push(x).skip(1) =~= s.skip(1).push(x));
        lemma_le_words_push(s.skip(1), x);
        lemma_pow2_adds(11, (11 * s.len() - 11) as nat);
        let rest = le_words_to_nat(s.skip(1));
        let p = pow2((11 * s.len() - 11) as nat);
        assert(le_words_to_nat(s.push(x)) == s[0] as nat + 2048 * le_words_to_nat(
            s.skip(1).push(x),
        ));
        assert(le_words_to_nat(s.skip(1).push(x)) == rest + x * p);
        assert(2048 * (rest + x * p) == 2048 * rest + x * (2048 * p)) by (nonlinear_arith);
        assert(2048 * p == pow2(11 * s.len()));
        assert(le_words_to_nat(s) == s[0] as nat + 2048 * rest);
        assert(le_words_to_nat(s.push(x)) == le_words_to_nat(s) + x * pow2(11 * s.len()));
    }
}

/// Reading a byte sequence as a number and writing the number back as
/// bytes gives the sequence again: the canonical form is faithful.
pub proof fn lemma_nat_to_le_bytes_inverse(s: Seq<u8>)
    ensures
        nat_to_le_bytes(le_bytes_to_nat(s), s.len()) == s,
    decreases s.len(),
{
    if s.len() == 0 {
        assert(nat_to_le_bytes(le_bytes_to_nat(s), s.len()) =~= s);
    } else {
        let n = le_bytes_to_nat(s);
        let rest = le_bytes_to_nat(s.skip(1));
        assert(n == rest * 256 + s[0] as nat);
        lemma_fundamental_div_mod_converse(n as int, 256, rest as int, s[0] as int);
        lemma_nat_to_le_bytes_inverse(s.skip(1));
        assert(nat_to_le_bytes(n, s.len()) =~= s);
    }
}

/// One digit-extraction step: taking the low `base` digit out of a
/// pending value keeps the positional sum.
pub proof fn lemma_split_digit(buf: nat, base: nat, p: nat)
    requires
        0 < base,
    ensures
        buf * p == (buf % base) * p + (buf / base) * (base * p),
{
    lemma_fundamental_div_mod(buf as int, base as int);
    let q = buf / base;
    let r = buf % base;
    assert(buf == base * q + r);
    assert((base * q + r) * p == r * p + q * (base * p)) by (nonlinear_arith);
}

/// Rewrite a 32-byte seed as its 24 little-endian 11-bit digits.
pub fn seed_to_words(seed: &[u8; 32]) -> (r: Vec<u16>)
    ensures
        r@.len() == 24,
        forall|k: int| 0 <= k < 24 ==> r@[k] < 2048,
        le_words_to_nat(r@) == le_bytes_to_nat(seed@),
{
    let mut out: Vec<u16> = Vec::new();
    let mut buf: u32 = 0;
    let mut bits: u32 = 0;
    let mut mult: u32 = 1;
    let mut i: usize = 0;
    proof {
        lemma2_to64();
        assert(seed@.take(0) =~= Seq::<u8>::empty());
    }
    while i < 32
        invariant
            seed@.len() == 32,
            i <= 32,
            bits <= 10,
            mult as nat == pow2(bits as nat),
            buf < mult,
            8 * (i as int) == 11 * (out@.len() as int) + (bits as int),
            forall|k: int| 0 <= k < out@.len() ==> out@[k] < 2048,
            le_bytes_to_nat(seed@.take(i as int)) == le_words_to_nat(out@) + (buf as nat) * pow2(
                11 * out@.len(),
            ),
        decreases 32 - i,
    {
        let b = seed[i];
        let ghost buf0 = buf;
        let ghost bits0 = bits;
        let ghost len0 = out@.len();
        proof {
            assert(seed@.take(i as int + 1) =~= seed@.take(i as int).push(seed@[i as int]));
            lemma_le_bytes_push(seed@.take(i as int), seed@[i as int]);
            assert(8 * seed@.take(i as int).len() == 11 * len0 + bits0);
            lemma_pow2_adds(11 * len0, bits0 as nat);
            lemma_pow2_le(bits0 as nat, 10);
            lemma2_to64();
            assert((b as nat) * (mult as nat) <= 255 * 1024) by (nonlinear_arith)
                requires
                    b as nat <= 255,
                    mult as nat <= 1024,
            ;
            let p = pow2(11 * len0);
            let q = pow2(bits0 as nat);
            assert((buf0 as nat) * p + (b as nat) * (q * p) == ((buf0 as nat) + (b as nat) * q)
                * p) by (nonlinear_arith);
        }
        let add: u32 = (b as u32) * mult;
        buf = buf + add;
        bits = bits + 8;
        proof {
            lemma_pow2_adds(bits0 as nat, 8);
            assert((buf0 as nat) + (b as nat) * (mult as nat) < 256 * (mult as nat))
                by (nonlinear_arith)
                requires
                    buf0 < mult,
                    b as nat <= 255,
            ;
        }
        mult = mult * 256;
        if bits >= 11 {
            let w: u16 = (buf % 2048) as u16;
            let ghost buf1 = buf;
            let ghost bits1 = bits;
            let ghost len1 = out@.len();
            proof {
                lemma_le_words_push(out@, w);
                lemma_pow2_adds(11 * len1, 11);
                lemma2_to64();
                lemma_split_digit(buf1 as nat, 2048, pow2(11 * len1));
                lemma_pow2_adds((bits1 - 11) as nat, 11);
                lemma_div_bound(buf1 as nat, 2048, pow2((bits1 - 11) as nat));
                lemma_div_multiples_vanish(pow2((bits1 - 11) as nat) as int, 2048);
                assert((buf1 as nat) / 2048 == (buf1 / 2048) as nat);
                assert(pow2(11 * len1) * 2048 == 2048 * pow2(11 * len1));
                assert((buf1 as nat / 2048) * (2048 * pow2(11 * len1)) == (buf1 as nat / 2048)
                    * pow2(11 * (len1 + 1))) by (nonlinear_arith)
                    requires
                        2048 * pow2(11 * len1) == pow2(11 * (len1 + 1)),
                ;
            }
            out.push(w);
            buf = buf / 2048;
            mult = mult / 2048;
            bits = bits - 11;
        }
        i += 1;
    }
    proof {
        assert(out@.len() == 23 && bits == 3);
        assert(seed@.take(32) =~= seed@);
        lemma2_to64();
    }
    let w: u16 = buf as u16;
    proof {
        lemma_le_words_push(out@, w);
    }
    out.push(w);
    out
}

/// Rewrite 24 little-endian 11-bit digits as the 32-byte seed they carry:
/// the digits' value reduced to 256 bits. (A 25-word mnemonic carries
/// 264 bits of digits; the top 8 are dropped, as the encoder always
/// leaves them zero.)
pub fn words_to_seed(words: &Vec<u16>) -> (r: [u8; 32])
    requires
        words@.len() == 24,
        forall|k: int| 0 <= k < 24 ==> words@[k] < 2048,
    ensures
        r@ == nat_to_le_bytes(le_words_to_nat(words@) % pow2(256), 32),
{
    let mut out: Vec<u8> = Vec::new();
    let mut buf: u32 = 0;
    let mut bits: u32 = 0;
    let mut mult: u32 = 1;
    let mut j: usize = 0;
    proof {
        lemma2_to64();
        assert(words@.take(0) =~= Seq::<u16>::empty());
    }
    while j < 24
        invariant
            words@.len() == 24,
            forall|k: int| 0 <= k < 24 ==> words@[k] < 2048,
            j <= 24,
            bits <= 7,
            mult as nat == pow2(bits as nat),
            buf < mult,
            8 * (out@.len() as int) + (bits as int) == 11 * (j as int),
            le_words_to_nat(words@.take(j as int)) == le_bytes_to_nat(out@) + (buf as nat) * pow2(
                8 * out@.len(),
            ),
        decreases 24 - j,
    {
        let w = words[j];
        let ghost buf0 = buf;
        let ghost bits0 = bits;
        let ghost len0 = out@.len();
        proof {
            assert(words@.take(j as int + 1) =~= words@.take(j as int).push(words@[j as int]));
            lemma_le_words_push(words@.take(j as int), words@[j as int]);
            assert(11 * words@.take(j as int).len() == 8 * len0 + bits0);
            lemma_pow2_adds(8 * len0, bits0 as nat);
            lemma_pow2_le(bits0 as nat, 7);
            lemma2_to64();
            assert((w as nat) * (mult as nat) <= 2047 * 128) by (nonlinear_arith)
                requires
                    w as nat <= 2047,
                    mult as nat <= 128,
            ;
            let p = pow2(8 * len0);
            let q = pow2(bits0 as nat);
            assert((buf0 as nat) * p + (w as nat) * (q * p) == ((buf0 as nat) + (w as nat) * q)
                * p) by (nonlinear_arith);
        }
        let add: u32 = (w as u32) * mult;
        buf = buf + add;
        bits = bits + 11;
        proof {
            lemma_pow2_adds(bits0 as nat, 11);
            assert((buf0 as nat) + (w as nat) * (mult as nat) < 2048 * (mult as nat))
                by (nonlinear_arith)
                requires
                    buf0 < mult,
                    w as nat <= 2047,
            ;
        }
        mult = mult * 2048;
        let ghost jj = j as int + 1;
        while bits >= 8
            invariant
                words@.len() == 24,
                jj <= 24,
                bits <= 18,
                mult as nat == pow2(bits as nat),
                buf < mult,
                8 * (out@.len() as int) + (bits as int) == 11 * jj,
                le_words_to_nat(words@.take(jj)) == le_bytes_to_nat(out@) + (buf as nat) * pow2(
                    8 * out@.len(),
                ),
            decreases bits,
        {
            let d: u8 = (buf % 256) as u8;
            let ghost buf1 = buf;
            let ghost bits1 = bits;
            let ghost len1 = out@.len();
            proof {
                lemma_le_bytes_push(out@, d);
                lemma_pow2_adds(8 * len1, 8);
                lemma2_to64();
                lemma_split_digit(buf1 as nat, 256, pow2(8 * len1));
                lemma_pow2_adds((bits1 - 8) as nat, 8);
                lemma_div_bound(buf1 as nat, 256, pow2((bits1 - 8) as nat));
                lemma_div_multiples_vanish(pow2((bits1 - 8) as nat) as int, 256);
                assert((buf1 as nat) / 256 == (buf1 / 256) as nat);
                assert((buf1 as nat / 256) * (256 * pow2(8 * len1)) == (buf1 as nat / 256) * pow2(
                    8 * (len1 + 1),
                )) by (nonlinear_arith)
                    requires
                        256 * pow2(8 * len1) == pow2(8 * (len1 + 1)),
                ;
            }
            out.push(d);
            buf = buf / 256;
            mult = mult / 256;
            bits = bits - 8;
        }
        j += 1;
    }
    proof {
        lemma2_to64();
        assert(out@.len() == 33 && bits == 0);
        assert(buf == 0);
        assert(words@.take(24) =~= words@);
        assert(out@ =~= out@.take(32).push(out@[32]));
        lemma_le_bytes_push(out@.take(32), out@[32]);
        lemma_le_bytes_bound(out@.take(32));
        lemma_pow2_pos(256);
        assert(le_words_to_nat(words@) == (out@[32] as int) * (pow2(256) as int) + le_bytes_to_nat(
            out@.take(32),
        ));
        lemma_fundamental_div_mod_converse(
            le_words_to_nat(words@) as int,
            pow2(256) as int,
            out@[32] as int,
            le_bytes_to_nat(out@.take(32)) as int,
        );
        lemma_nat_to_le_bytes_inverse(out@.take(32));
    }
    let mut seed = [0u8; 32];
    let mut t: usize = 0;
    while t < 32
        invariant
            t <= 32,
            out@.len() == 33,
            forall|k: int| 0 <= k < t ==> seed@[k] == out@[k],
        decreases 32 - t,
    {
        seed[t] = out[t];
        t += 1;
    }
    proof {
        assert(seed@ =~= out@.take(32));
    }
    seed
}

/// The 11-bit checksum of a 32-byte seed, from its truncated 512-bit
/// digest.
pub fn seed_checksum(seed: &[u8]) -> (r: u16)
    requires
        seed@.len() == 32,
    ensures
        r as nat == checksum_word(seed@),
        r < 2048,
{
    let d = crate::crypto::sha512_256(seed);
    (d[0] as u16) + 256 * ((d[1] % 8) as u16)
}

/// A validated mnemonic: 25 word indices, each inside the vocabulary.
#[derive(Debug, PartialEq, Eq)]
pub struct Mnemonic {
    words: Vec<u16>,
}

impl View for Mnemonic {
    type V = Seq<u16>;

    closed spec fn view(&self) -> Seq<u16> {
        self.words@
    }
}

impl Mnemonic {
    /// Every mnemonic has exactly 25 words, each a valid vocabulary
    /// index.
    #[verifier::type_invariant]
    pub closed spec fn well_formed(self) -> bool {
        self.words@.len() == 25 && forall|k: int| 0 <= k < 25 ==> self.words@[k] < 2048
    }

    /// Validate raw word indices as a mnemonic: the count must be 25 and
    /// every index must lie inside the vocabulary.
    pub fn from_words(words: Vec<u16>) -> (r: Result<Mnemonic, CryptoError>)
        ensures
            match r {
                Ok(m) => m@ == words@ && words@.len() == 25 && (forall|k: int|
                    0 <= k < 25 ==> words@[k] < 2048),
                Err(CryptoError::InvalidMnemonicLength) => words@.len() != 25,
                Err(CryptoError::InvalidWordsInMnemonic) => words@.len() == 25 && exists|k: int|
                    0 <= k < 25 && words@[k] >= 2048,
                Err(_) => false,
            },
    {
        if words.len() != 25 {
            return Err(CryptoError::InvalidMnemonicLength);
        }
        let mut k: usize = 0;
        while k < 25
            invariant
                words@.len() == 25,
                k <= 25,
                forall|t: int| 0 <= t < k ==> words@[t] < 2048,
            decreases 25 - k,
        {
            if words[k] >= 2048 {
                return Err(CryptoError::InvalidWordsInMnemonic);
            }
            k += 1;
        }
        Ok(Mnemonic { words })
    }

    /// The 25 word indices, in order.
    pub fn words(&self) -> (r: Vec<u16>)
        ensures
            r@ == self@,
            r@.len() == 25,
            forall|k: int| 0 <= k < 25 ==> r@[k] < 2048,
    {
        proof {
            use_type_invariant(self);
        }
        let mut out: Vec<u16> = Vec::new();
        let mut k: usize = 0;
        while k < self.words.len()
            invariant
                k <= self.words@.len(),
                out@ == self.words@.take(k as int),
            decreases self.words@.len() - k,
        {
            out.push(self.words[k]);
            k += 1;
            assert(out@ =~= self.words@.take(k as int));
        }
        assert(out@ =~= self.words@);
        out
    }

    /// The word count of a full mnemonic.
    pub fn len(&self) -> (r: usize)
        ensures
            r == self@.len(),
            r == 25,
    {
        proof {
            use_type_invariant(self);
        }
        self.words.len()
    }
}

/// Encode a 32-byte seed as its 25-word mnemonic: 24 data words carrying
/// the seed's value, then the seed's checksum word.
pub fn seed_to_mnemonic(seed: &[u8; 32]) -> (r: Mnemonic)
    ensures
        r@.len() == 25,
        forall|k: int| 0 <= k < 25 ==> r@[k] < 2048,
        le_words_to_nat(r@.take(24)) == le_bytes_to_nat(seed@),
        r@[24] as nat == checksum_word(seed@),
{
    let mut words = seed_to_words(seed);
    let check = seed_checksum(seed.as_slice());
    let ghost data = words@;
    words.push(check);
    proof {
        assert(words@.take(24) =~= data);
    }
    let m = Mnemonic { words };
    m
}

/// Decode a mnemonic back to its seed: the 24 data words are read as a
/// 256-bit value, and the mnemonic's checksum word must equal the decoded
/// seed's checksum.
pub fn mnemonic_to_seed(m: &Mnemonic) -> (r: Result<[u8; 32], CryptoError>)
    ensures
        match r {
            Ok(seed) => seed@ == decoded_seed(m@) && checksum_word(decoded_seed(m@)) == m@[24],
            Err(e) => e == CryptoError::InvalidChecksum && checksum_word(decoded_seed(m@))
                != m@[24],
        },
{
    proof {
        use_type_invariant(m);
    }
    let mut data: Vec<u16> = Vec::new();
    let mut k: usize = 0;
    while k < 24
        invariant
            m.words@.len() == 25,
            forall|t: int| 0 <= t < 25 ==> m.words@[t] < 2048,
            k <= 24,
            data@ == m.words@.take(k as int),
        decreases 24 - k,
    {
        data.push(m.words[k]);
        k += 1;
        assert(data@ =~= m.words@.take(k as int));
    }
    let seed = words_to_seed(&data);
    let check = seed_checksum(seed.as_slice());
    let expected = m.words[24];
    if check == expected {
        Ok(seed)
    } else {
        Err(CryptoError::InvalidChecksum)
    }
}

/// The round trip: a mnemonic that satisfies the encoder's contract for a
/// 32-byte seed decodes to that same seed, and its checksum word passes
/// the decoder's check.
pub proof fn lemma_mnemonic_round_trip(seed: Seq<u8>, words: Seq<u16>)
    requires
        seed.len() == 32,
        words.len() == 25,
        le_words_to_nat(words.take(24)) == le_bytes_to_nat(seed),
        words[24] as nat == checksum_word(seed),
    ensures
        decoded_seed(words) == seed,
        checksum_word(decoded_seed(words)) == words[24],
{
    lemma_le_bytes_bound(seed);
    lemma_pow2_pos(256);
    lemma_small_mod(le_bytes_to_nat(seed), pow2(256));
    lemma_nat_to_le_bytes_inverse(seed);
}

} // verus!
