//! Lightning-style message signature verification.
//!
//! The signature format:
//!
//! 1. Message digest: `SHA256(SHA256("Lightning Signed Message:" ++ msg))`.
//! 2. Signature: zbase32-encoded 65-byte recoverable ECDSA signature,
//!    `byte[0] = recovery_id + 31`, `bytes[1..65]` = compact `(r, s)`.

use vstd::prelude::*;
use vstd::arithmetic::power2::{pow2, lemma_pow2_adds, lemma_pow2_pos, lemma2_to64};
use vstd::bits::{
    low_bits_mask, lemma_u64_shl_is_mul, lemma_u64_shr_is_div, lemma_u64_low_bits_mask_is_mod,
};
use vstd::slice::slice_subrange;
use vstd::string::StringSliceAdditionalSpecFns;
use sha2::Digest;

verus! {

// ---------------------------------------------------------------------
// zbase32 decoding
// ---------------------------------------------------------------------

/// Value of one symbol of the zbase32 alphabet `ybndrfg8ejkmcpqxot1uwisza345h769`:
/// the byte at index `i` of that string stands for the 5-bit value `i`.
/// Bytes outside the alphabet (including anything non-ASCII) have no value.
pub open spec fn zvalue(b: u8) -> Option<u8> {
    match b {
        121u8 => Some(0u8),  // 'y'
        98u8 => Some(1u8),   // 'b'
        110u8 => Some(2u8),  // 'n'
        100u8 => Some(3u8),  // 'd'
        114u8 => Some(4u8),  // 'r'
        102u8 => Some(5u8),  // 'f'
        103u8 => Some(6u8),  // 'g'
        56u8 => Some(7u8),   // '8'
        101u8 => Some(8u8),  // 'e'
        106u8 => Some(9u8),  // 'j'
        107u8 => Some(10u8), // 'k'
        109u8 => Some(11u8), // 'm'
        99u8 => Some(12u8),  // 'c'
        112u8 => Some(13u8), // 'p'
        113u8 => Some(14u8), // 'q'
        120u8 => Some(15u8), // 'x'
        111u8 => Some(16u8), // 'o'
        116u8 => Some(17u8), // 't'
        49u8 => Some(18u8),  // '1'
        117u8 => Some(19u8), // 'u'
        119u8 => Some(20u8), // 'w'
        105u8 => Some(21u8), // 'i'
        115u8 => Some(22u8), // 's'
        122u8 => Some(23u8), // 'z'
        97u8 => Some(24u8),  // 'a'
        51u8 => Some(25u8),  // '3'
        52u8 => Some(26u8),  // '4'
        53u8 => Some(27u8),  // '5'
        104u8 => Some(28u8), // 'h'
        55u8 => Some(29u8),  // '7'
        54u8 => Some(30u8),  // '6'
        57u8 => Some(31u8),  // '9'
        _ => None,
    }
}

/// Looks one input byte up in the zbase32 alphabet.
fn zlookup(b: u8) -> (r: Option<u8>)
    ensures
        r == zvalue(b),
        r matches Some(v) ==> v < 32,
{
    match b {
        121u8 => Some(0u8),
        98u8 => Some(1u8),
        110u8 => Some(2u8),
        100u8 => Some(3u8),
        114u8 => Some(4u8),
        102u8 => Some(5u8),
        103u8 => Some(6u8),
        56u8 => Some(7u8),
        101u8 => Some(8u8),
        106u8 => Some(9u8),
        107u8 => Some(10u8),
        109u8 => Some(11u8),
        99u8 => Some(12u8),
        112u8 => Some(13u8),
        113u8 => Some(14u8),
        120u8 => Some(15u8),
        111u8 => Some(16u8),
        116u8 => Some(17u8),
        49u8 => Some(18u8),
        117u8 => Some(19u8),
        119u8 => Some(20u8),
        105u8 => Some(21u8),
        115u8 => Some(22u8),
        122u8 => Some(23u8),
        97u8 => Some(24u8),
        51u8 => Some(25u8),
        52u8 => Some(26u8),
        53u8 => Some(27u8),
        104u8 => Some(28u8),
        55u8 => Some(29u8),
        54u8 => Some(30u8),
        57u8 => Some(31u8),
        _ => None,
    }
}

/// Decoding of the zbase32 bit stream from position `i` on, entered with
/// `nbits` bits (value `acc < 2^nbits`) still pending from earlier symbols.
/// Each symbol shifts its 5-bit value into the accumulator; whenever 8 or
/// more bits are pending, the top 8 leave as one output byte.  A byte
/// outside the alphabet invalidates the whole input; up to 7 bits pending
/// at the end are discarded.
pub open spec fn decode_from(s: Seq<u8>, i: int, acc: nat, nbits: nat) -> Option<Seq<u8>>
    decreases s.len() - i,
{
    if i < 0 || i >= s.len() {
        Some(Seq::empty())
    } else {
        match zvalue(s[i]) {
            None => None,
            Some(v) => {
                let acc2: nat = acc * 32 + (v as nat);
                if nbits + 5 >= 8 {
                    let k = (nbits + 5 - 8) as nat;
                    let emitted = ((acc2 / pow2(k)) % 256) as u8;
                    match decode_from(s, i + 1, acc2 % pow2(k), k) {
                        None => None,
                        Some(rest) => Some(seq![emitted] + rest),
                    }
                } else {
                    decode_from(s, i + 1, acc2, nbits + 5)
                }
            },
        }
    }
}

/// What a zbase32 text denotes: the bytes of its 5-bit-per-symbol stream,
/// or nothing at all if any byte lies outside the alphabet.
pub open spec fn spec_zbase32_decode(s: Seq<u8>) -> Option<Seq<u8>> {
    decode_from(s, 0, 0, 0)
}

/// The decoder's loop invariant: what the whole input denotes is `emitted`
/// followed by whatever the rest of the stream still yields.
spec fn decode_resumes(s: Seq<u8>, i: int, acc: nat, nbits: nat, emitted: Seq<u8>) -> bool {
    spec_zbase32_decode(s) == (match decode_from(s, i, acc, nbits) {
        None => Option::<Seq<u8>>::None,
        Some(rest) => Some(emitted + rest),
    })
}

/// Decodes a zbase32 text to raw bytes.  Fails on the first byte outside
/// the alphabet, with no partial output; silently discards up to 7
/// trailing bits; decodes the empty string to no bytes.
pub fn zbase32_decode(input: &str) -> (r: Option<Vec<u8>>)
    ensures
        r matches Some(v) ==> spec_zbase32_decode(input.spec_bytes()) == Some(v@),
        r is None <==> spec_zbase32_decode(input.spec_bytes()) is None,
{
    let bytes = input.as_bytes();
    let n = bytes.len();
    let mut bits: u64 = 0;
    let mut num_bits: u32 = 0;
    let mut output: Vec<u8> = Vec::new();
    let mut i: usize = 0;
    proof {
        lemma2_to64();
    }
    while i < n
        invariant
            n == bytes@.len(),
            bytes@ == input.spec_bytes(),
            i <= n,
            num_bits <= 7,
            (bits as nat) < pow2(num_bits as nat),
            decode_resumes(bytes@, i as int, bits as nat, num_bits as nat, output@),
        decreases n - i,
    {
        let byte = bytes[i];
        let v = match zlookup(byte) {
            Some(v) => v,
            None => {
                // The stream from position i on yields nothing, so by the
                // invariant neither does the whole input.
                assert(decode_from(bytes@, i as int, bits as nat, num_bits as nat) is None);
                return None;
            },
        };
        let ghost s = bytes@;
        let ghost b0 = bits as nat;
        let ghost nb0 = num_bits as nat;
        let ghost out0 = output@;
        proof {
            lemma2_to64();
            if num_bits < 7 {
                vstd::arithmetic::power2::lemma_pow2_strictly_increases(nb0, 7);
            }
            assert(bits < 128);
            lemma_u64_shl_is_mul(bits, 5);
        }
        let new_bits = (bits << 5u64) | (v as u64);
        proof {
            assert((bits << 5u64) | (v as u64) == (bits << 5u64) + (v as u64)) by (bit_vector)
                requires
                    (v as u64) < 32,
            ;
            assert(new_bits as nat == b0 * 32 + (v as nat));
            lemma_pow2_adds(nb0, 5);
            assert((new_bits as nat) < pow2(nb0 + 5)) by (nonlinear_arith)
                requires
                    b0 < pow2(nb0),
                    (v as nat) < 32,
                    new_bits as nat == b0 * 32 + (v as nat),
                    pow2(nb0 + 5) == pow2(nb0) * 32,
            ;
        }
        if num_bits + 5 >= 8 {
            num_bits = num_bits + 5 - 8;
            let ghost k = num_bits as nat;
            proof {
                lemma_u64_shr_is_div(new_bits, num_bits as u64);
                lemma_pow2_pos(k);
                lemma_pow2_adds(k, 8);
                assert(new_bits as nat / pow2(k) < 256) by (nonlinear_arith)
                    requires
                        pow2(k) > 0,
                        (new_bits as nat) < pow2(k) * 256,
                ;
            }
            let out_byte = (new_bits >> (num_bits as u64)) as u8;
            output.push(out_byte);
            proof {
                lemma_u64_shl_is_mul(1u64, num_bits as u64);
                lemma_u64_low_bits_mask_is_mod(new_bits, k);
                assert((1u64 << (num_bits as u64)) - 1 == low_bits_mask(k) as u64);
            }
            bits = new_bits & ((1u64 << (num_bits as u64)) - 1);
            proof {
                assert(bits as nat == (new_bits as nat) % pow2(k));
                let acc2 = b0 * 32 + (v as nat);
                assert(acc2 == new_bits as nat);
                assert((acc2 / pow2(k)) % 256 == acc2 / pow2(k));
                assert(out_byte as nat == acc2 / pow2(k));
                assert(decode_from(s, i as int, b0, nb0) == (match decode_from(
                    s,
                    i as int + 1,
                    bits as nat,
                    k,
                ) {
                    None => Option::<Seq<u8>>::None,
                    Some(rest) => Some(seq![out_byte] + rest),
                }));
                if decode_from(s, i as int + 1, bits as nat, k) is Some {
                    let rest = decode_from(s, i as int + 1, bits as nat, k).unwrap();
                    assert(out0 + (seq![out_byte] + rest) =~= output@ + rest);
                }
            }
        } else {
            num_bits = num_bits + 5;
            bits = new_bits;
            proof {
                assert(decode_from(s, i as int, b0, nb0) == decode_from(
                    s,
                    i as int + 1,
                    bits as nat,
                    num_bits as nat,
                ));
            }
        }
        i = i + 1;
    }
    proof {
        assert(decode_from(bytes@, n as int, bits as nat, num_bits as nat) == Some(
            Seq::<u8>::empty(),
        ));
        assert(output@ + Seq::<u8>::empty() =~= output@);
    }
    Some(output)
}

// ---------------------------------------------------------------------
// Message digest
// ---------------------------------------------------------------------

/// The SHA-256 digest of a byte sequence.  Named, not modelled: the
/// verifier relies on it only as a fixed function of its input.
pub uninterp spec fn sha256_of(data: Seq<u8>) -> Seq<u8>;

/// Relies on sha2's `Sha256` through the `Digest` trait: the digest is
/// a function of the input bytes alone and is always 32 bytes long.
#[verifier::external_body]
fn sha256(data: &[u8]) -> (r: Vec<u8>)
    ensures
        r@ == sha256_of(data@),
        r@.len() == 32,
{
    sha2::Sha256::digest(data).as_slice().to_vec()
}

/// The ASCII bytes of the fixed domain-separation prefix.  The prefix
/// is exact wire format: signers hash it byte-for-byte before the
/// message, with no separator.
pub open spec fn spec_prefix() -> Seq<u8> {
    "Lightning Signed Message:".spec_bytes()
}

/// The digest that is actually signed: double SHA-256 over the prefixed
/// message.  The raw message is never hashed once or signed directly.
pub open spec fn spec_lightning_digest(msg: Seq<u8>) -> Seq<u8> {
    sha256_of(sha256_of(spec_prefix() + msg))
}

/// Computes `SHA256(SHA256("Lightning Signed Message:" ++ msg))`.
pub fn lightning_message_hash(msg: &[u8]) -> (r: Vec<u8>)
    ensures
        r@ == spec_lightning_digest(msg@),
        r@.len() == 32,
{
    let mut buf: Vec<u8> = Vec::new();
    buf.extend_from_slice("Lightning Signed Message:".as_bytes());
    buf.extend_from_slice(msg);
    proof {
        assert(buf@ =~= spec_prefix() + msg@);
    }
    let first = sha256(buf.as_slice());
    let second = sha256(first.as_slice());
    second
}

// ---------------------------------------------------------------------
// Hex encoding of the recovered key
// ---------------------------------------------------------------------

/// The lowercase hex digit of a value below 16.
pub open spec fn hex_digit(v: u8) -> char {
    if v < 10 {
        ((v + 48) as char)  // '0' is 48
    } else {
        ((v + 87) as char)  // 'a' is 97
    }
}

/// Lowercase hex encoding: two digits per byte, high nibble first.
pub open spec fn spec_hex_encode(bytes: Seq<u8>) -> Seq<char> {
    Seq::new(
        2 * bytes.len(),
        |i: int|
            if i % 2 == 0 {
                hex_digit(bytes[i / 2] / 16)
            } else {
                hex_digit(bytes[i / 2] % 16)
            },
    )
}

/// Relies on hex::encode: lowercase hex, two digits per byte, high
/// nibble first.
#[verifier::external_body]
fn hex_encode(data: &[u8]) -> (r: String)
    ensures
        r@ == spec_hex_encode(data@),
{
    hex::encode(data)
}

// ---------------------------------------------------------------------
// Curve recovery
// ---------------------------------------------------------------------

/// Why verification rejected.  The public boundary collapses all of
/// these to a plain reject; they stay distinguishable for diagnostics
/// and for tests.
#[derive(Debug, Clone, Copy, PartialEq, Eq, Structural)]
pub enum VerifyError {
    /// The signature text holds a character outside the alphabet.
    Encoding,
    /// The decoded signature is not exactly 65 bytes.
    Length,
    /// The marker byte minus 31 is no recovery id in {0, 1, 2, 3}.
    RecoveryId,
    /// The 64 signature bytes are no acceptable (r, s) scalar pair.
    SignatureShape,
    /// Recovery produced no valid curve point for digest and signature.
    RecoveryFailure,
    /// Recovery succeeded but the key differs from the expected one.
    Mismatch,
}

/// Whether 64 bytes parse as a compact signature: the two 32-byte
/// big-endian scalars r and s must not overflow the curve order.
/// Named, not modelled.
pub uninterp spec fn compact_sig_ok(sig64: Seq<u8>) -> bool;

/// The compressed serialization of the public key that ECDSA recovery
/// over secp256k1 yields for a compact signature, a recovery id and a
/// 32-byte digest, if it yields one.  Named, not modelled: the verifier
/// relies on it only as a fixed function of its arguments.
pub uninterp spec fn recovered_key(sig64: Seq<u8>, recid: u8, digest: Seq<u8>) -> Option<Seq<u8>>;

/// Relies on secp256k1: `RecoveryId::from_u8_masked` (the identity on
/// values below 4), `RecoverableSignature::from_compact` (fails exactly
/// when the scalar pair does not parse), `recover_ecdsa` (fails exactly
/// when recovery yields no valid point) and `PublicKey::serialize` (the
/// 33-byte compressed form).  Each is a function of its arguments alone.
#[verifier::external_body]
fn ecdsa_recover(sig64: &[u8], recid: u8, digest: &[u8]) -> (r: Result<Vec<u8>, VerifyError>)
    requires
        sig64@.len() == 64,
        recid < 4,
        digest@.len() == 32,
    ensures
        (r matches Err(e) && e == VerifyError::SignatureShape) <==> !compact_sig_ok(sig64@),
        (r matches Err(e) && e == VerifyError::RecoveryFailure) <==> (compact_sig_ok(sig64@)
            && recovered_key(sig64@, recid, digest@) is None),
        r is Ok <==> (compact_sig_ok(sig64@) && recovered_key(sig64@, recid, digest@) is Some),
        r matches Ok(k) ==> Some(k@) == recovered_key(sig64@, recid, digest@) && k@.len() == 33,
{
    let rid = secp256k1::ecdsa::RecoveryId::from_u8_masked(recid);
    let sig = match secp256k1::ecdsa::RecoverableSignature::from_compact(sig64, rid) {
        Ok(s) => s,
        Err(_) => return Err(VerifyError::SignatureShape),
    };
    let mut d = [0u8; 32];
    d.copy_from_slice(digest);
    match sig.recover_ecdsa(secp256k1::Message::from_digest(d)) {
        Ok(pk) => Ok(pk.serialize().as_slice().to_vec()),
        Err(_) => Err(VerifyError::RecoveryFailure),
    }
}

// ---------------------------------------------------------------------
// The verification pipeline
// ---------------------------------------------------------------------

/// The staged outcome of verification over mathematical views: decode,
/// length check, recovery-id check, scalar-shape check, curve recovery
/// and key comparison, rejecting at the first stage that fails.
pub open spec fn spec_check(msg: Seq<u8>, sig: Seq<u8>, expected: Seq<char>) -> Result<
    (),
    VerifyError,
> {
    match spec_zbase32_decode(sig) {
        None => Err(VerifyError::Encoding),
        Some(b) => if b.len() != 65 {
            Err(VerifyError::Length)
        } else if !(31 <= b[0] && b[0] <= 34) {
            Err(VerifyError::RecoveryId)
        } else if !compact_sig_ok(b.subrange(1, 65)) {
            Err(VerifyError::SignatureShape)
        } else {
            match recovered_key(b.subrange(1, 65), (b[0] - 31) as u8, spec_lightning_digest(msg)) {
                None => Err(VerifyError::RecoveryFailure),
                Some(key) => if spec_hex_encode(key) == expected {
                    Ok(())
                } else {
                    Err(VerifyError::Mismatch)
                },
            }
        },
    }
}

/// Whether verification accepts: the signature decodes to 65 bytes, its
/// marker and scalars are well-formed, recovery yields a key, and that
/// key's hex form equals the expected one byte for byte.
pub open spec fn spec_verify(msg: Seq<u8>, sig: Seq<u8>, expected: Seq<char>) -> bool {
    spec_check(msg, sig, expected) is Ok
}

/// Verifies a Lightning-style recoverable signature and reports which
/// stage rejected, if one did.  Total over attacker-supplied input:
/// every failure is a clean error value.
pub fn check_lightning_signature(
    msg: &[u8],
    sig_zbase32: &str,
    expected_pubkey_hex: &str,
) -> (r: Result<(), VerifyError>)
    ensures
        r == spec_check(msg@, sig_zbase32.spec_bytes(), expected_pubkey_hex@),
{
    let sig_bytes = match zbase32_decode(sig_zbase32) {
        Some(b) => b,
        None => {
            return Err(VerifyError::Encoding);
        },
    };
    if sig_bytes.len() != 65 {
        return Err(VerifyError::Length);
    }
    let marker = sig_bytes[0];
    if marker < 31 || marker > 34 {
        return Err(VerifyError::RecoveryId);
    }
    let digest = lightning_message_hash(msg);
    let compact = slice_subrange(sig_bytes.as_slice(), 1, 65);
    let key = match ecdsa_recover(compact, marker - 31, digest.as_slice()) {
        Ok(k) => k,
        Err(e) => {
            return Err(e);
        },
    };
    let key_hex = hex_encode(key.as_slice());
    let expected = expected_pubkey_hex.to_owned();
    if key_hex == expected {
        Ok(())
    } else {
        Err(VerifyError::Mismatch)
    }
}

/// Verifies a Lightning-style recoverable signature: accepts exactly
/// when the recovered public key's 33-byte compressed hex form equals
/// `expected_pubkey_hex`.
pub fn verify_lightning_signature(
    msg: &[u8],
    sig_zbase32: &str,
    expected_pubkey_hex: &str,
) -> (r: bool)
    ensures
        r == spec_verify(msg@, sig_zbase32.spec_bytes(), expected_pubkey_hex@),
{
    match check_lightning_signature(msg, sig_zbase32, expected_pubkey_hex) {
        Ok(()) => true,
        Err(_) => false,
    }
}

// ---------------------------------------------------------------------
// Laws
// ---------------------------------------------------------------------

/// Decoding the empty string yields the empty byte sequence, not an
/// error.
pub proof fn lemma_decode_empty()
    ensures
        spec_zbase32_decode(Seq::<u8>::empty()) == Some(Seq::<u8>::empty()),
{
}

/// Decoding from position `i` on fails exactly when some remaining byte
/// lies outside the alphabet, whatever bits are pending.
proof fn lemma_decode_from_none(s: Seq<u8>, i: int, acc: nat, nbits: nat)
    requires
        0 <= i <= s.len(),
    ensures
        decode_from(s, i, acc, nbits) is None <==> exists|j: int|
            i <= j < s.len() && zvalue(s[j]) is None,
    decreases s.len() - i,
{
    if i < s.len() {
        match zvalue(s[i]) {
            None => {
                assert(i <= i < s.len() && zvalue(s[i]) is None);
            },
            Some(v) => {
                let acc2: nat = acc * 32 + (v as nat);
                let sub = if nbits + 5 >= 8 {
                    let k = (nbits + 5 - 8) as nat;
                    // Without this the solver cannot rule out a zero
                    // divisor in the definition's accumulator split.
                    lemma_pow2_pos(k);
                    lemma_decode_from_none(s, i + 1, acc2 % pow2(k), k);
                    decode_from(s, i + 1, acc2 % pow2(k), k)
                } else {
                    lemma_decode_from_none(s, i + 1, acc2, nbits + 5);
                    decode_from(s, i + 1, acc2, nbits + 5)
                };
                assert(decode_from(s, i, acc, nbits) is None <==> sub is None);
                if sub is None {
                    let j = choose|j: int| i + 1 <= j < s.len() && zvalue(s[j]) is None;
                    assert(i <= j < s.len() && zvalue(s[j]) is None);
                }
                if exists|j: int| i <= j < s.len() && zvalue(s[j]) is None {
                    let j = choose|j: int| i <= j < s.len() && zvalue(s[j]) is None;
                    assert(i + 1 <= j < s.len() && zvalue(s[j]) is None);
                }
            },
        }
    }
}

/// Decoding from position `i` on, with `nbits` bits pending, emits one
/// byte for every full 8 bits of the remaining stream.
proof fn lemma_decode_from_length(s: Seq<u8>, i: int, acc: nat, nbits: nat, rest: Seq<u8>)
    requires
        0 <= i <= s.len(),
        nbits < 8,
        decode_from(s, i, acc, nbits) == Some(rest),
    ensures
        rest.len() == (nbits + 5 * (s.len() - i)) / 8,
    decreases s.len() - i,
{
    if i < s.len() {
        let v = zvalue(s[i]).unwrap();
        let acc2: nat = acc * 32 + (v as nat);
        if nbits + 5 >= 8 {
            let k = (nbits + 5 - 8) as nat;
            lemma_pow2_pos(k);
            let sub = decode_from(s, i + 1, acc2 % pow2(k), k);
            let tail = sub.unwrap();
            assert(rest == seq![((acc2 / pow2(k)) % 256) as u8] + tail);
            lemma_decode_from_length(s, i + 1, acc2 % pow2(k), k, tail);
            let x = k + 5 * (s.len() - i - 1);
            vstd::arithmetic::div_mod::lemma_div_plus_one(x as int, 8);
            assert(8 + x == nbits + 5 * (s.len() - i));
        } else {
            lemma_decode_from_length(s, i + 1, acc2, nbits + 5, rest);
        }
    }
}

/// On success the decoder emits exactly `5 * n / 8` bytes for `n` input
/// symbols: 5 bits per symbol, whole bytes only, the leftover bits
/// discarded.  In particular only a 104- or 105-symbol text can decode
/// to the 65 bytes a signature needs.
pub proof fn lemma_decode_length(s: Seq<u8>, b: Seq<u8>)
    requires
        spec_zbase32_decode(s) == Some(b),
    ensures
        b.len() == 5 * s.len() / 8,
{
    lemma_decode_from_length(s, 0, 0, 0, b);
}

/// All or nothing: decoding fails exactly when some byte of the input
/// lies outside the alphabet — a bad byte anywhere invalidates the
/// whole string, and a partial result is never a valid outcome.
pub proof fn lemma_decode_all_or_nothing(s: Seq<u8>)
    ensures
        spec_zbase32_decode(s) is None <==> exists|j: int| 0 <= j < s.len() && zvalue(s[j]) is None,
{
    lemma_decode_from_none(s, 0, 0, 0);
}

/// A signature whose decoded form is not exactly 65 bytes — truncated
/// or padded, whatever its content — is rejected for its length, and
/// verification never accepts it.
pub proof fn lemma_wrong_length_rejects(msg: Seq<u8>, sig: Seq<u8>, expected: Seq<char>, b: Seq<u8>)
    requires
        spec_zbase32_decode(sig) == Some(b),
        b.len() != 65,
    ensures
        spec_check(msg, sig, expected) == Err::<(), VerifyError>(VerifyError::Length),
        !spec_verify(msg, sig, expected),
{
}

} // verus!
